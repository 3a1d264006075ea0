//! The tuples that a scripted method or setter may return: a method returns
//! the script's value followed by any number of actions, a setter only the
//! actions. Each action is converted into the game's action type, and the
//! actions are handed over in the order in which the tuple holds them.
use vstd::prelude::*;
use vstd::std_specs::convert::IntoSpec;

verus! {

/// Implemented by the tuples that `MethodReturn` and `SetReturn` accept, and
/// by nothing else.
pub trait Sealed {
}

/// A tuple returned by a scripted method: the script's value, then the
/// actions to apply.
pub trait MethodReturn<Action>: Sealed + Sized {
    type T;

    /// Whether every element's conversion into an action follows its
    /// specification.
    spec fn conversions_specified(&self) -> bool;

    /// The script's value: the first element.
    spec fn value(self) -> Self::T;

    /// The actions, each element after the first converted, in order.
    spec fn actions(self) -> Seq<Action>;

    /// The number of actions.
    spec fn action_count(&self) -> nat;

    /// Whether `actions` holds, in order, one result of converting each
    /// element after the first (whatever the conversions do).
    spec fn converted_in_order(self, actions: Seq<Action>) -> bool;

    /// Splits the tuple into the script's value and its actions.
    fn convert(self) -> (r: (Self::T, Vec<Action>))
        ensures
            r.0 == self.value(),
            self.converted_in_order(r.1@),
            r.1.len() == self.action_count(),
            self.conversions_specified() ==> r.1@ == self.actions(),
    ;
}

/// A tuple returned by a scripted setter: the actions to apply.
pub trait SetReturn<Action>: Sealed + Sized {
    /// Whether every element's conversion into an action follows its
    /// specification.
    spec fn conversions_specified(&self) -> bool;

    /// The actions, each element converted, in order.
    spec fn actions(self) -> Seq<Action>;

    /// The number of actions.
    spec fn action_count(&self) -> nat;

    /// Whether `actions` holds, in order, one result of converting each
    /// element (whatever the conversions do).
    spec fn converted_in_order(self, actions: Seq<Action>) -> bool;

    /// The actions, in the order of the tuple.
    fn convert(self) -> (r: Vec<Action>)
        ensures
            self.converted_in_order(r@),
            r.len() == self.action_count(),
            self.conversions_specified() ==> r@ == self.actions(),
    ;
}

impl<T> Sealed for (T,) {
}

impl<T, Action> MethodReturn<Action> for (T,) {
    type T = T;

    open spec fn conversions_specified(&self) -> bool {
        true
    }

    open spec fn value(self) -> T {
        self.0
    }

    open spec fn actions(self) -> Seq<Action> {
        Seq::empty()
    }

    open spec fn action_count(&self) -> nat {
        0
    }

    open spec fn converted_in_order(self, actions: Seq<Action>) -> bool {
        &&& actions.len() == 0
    }

    fn convert(self) -> (r: (T, Vec<Action>)) {
        (self.0, Vec::new())
    }
}

impl<T, A> Sealed for (T, A) {
}

impl<T, Action, A: Into<Action>> MethodReturn<Action> for (T, A) {
    type T = T;

    open spec fn conversions_specified(&self) -> bool {
        <A as IntoSpec<Action>>::obeys_into_spec()
    }

    open spec fn value(self) -> T {
        self.0
    }

    open spec fn actions(self) -> Seq<Action> {
        seq![self.1.into_spec()]
    }

    open spec fn action_count(&self) -> nat {
        1
    }

    open spec fn converted_in_order(self, actions: Seq<Action>) -> bool {
        &&& actions.len() == 1
        &&& call_ensures(<A as Into<Action>>::into, (self.1,), actions[0])
    }

    fn convert(self) -> (r: (T, Vec<Action>)) {
        let (t, a) = self;
        let mut v: Vec<Action> = Vec::new();
        let into_a = <A as Into<Action>>::into;
        v.push(into_a(a));
        (t, v)
    }
}

impl<T, A, B> Sealed for (T, A, B) {
}

impl<T, Action, A: Into<Action>, B: Into<Action>> MethodReturn<Action> for (T, A, B) {
    type T = T;

    open spec fn conversions_specified(&self) -> bool {
        <A as IntoSpec<Action>>::obeys_into_spec()
            && <B as IntoSpec<Action>>::obeys_into_spec()
    }

    open spec fn value(self) -> T {
        self.0
    }

    open spec fn actions(self) -> Seq<Action> {
        seq![self.1.into_spec(), self.2.into_spec()]
    }

    open spec fn action_count(&self) -> nat {
        2
    }

    open spec fn converted_in_order(self, actions: Seq<Action>) -> bool {
        &&& actions.len() == 2
        &&& call_ensures(<A as Into<Action>>::into, (self.1,), actions[0])
        &&& call_ensures(<B as Into<Action>>::into, (self.2,), actions[1])
    }

    fn convert(self) -> (r: (T, Vec<Action>)) {
        let (t, a, b) = self;
        let mut v: Vec<Action> = Vec::new();
        let into_a = <A as Into<Action>>::into;
        let into_b = <B as Into<Action>>::into;
        v.push(into_a(a));
        v.push(into_b(b));
        (t, v)
    }
}

impl<T, A, B, C> Sealed for (T, A, B, C) {
}

impl<T, Action, A: Into<Action>, B: Into<Action>, C: Into<Action>> MethodReturn<Action> for (T, A, B, C) {
    type T = T;

    open spec fn conversions_specified(&self) -> bool {
        <A as IntoSpec<Action>>::obeys_into_spec()
            && <B as IntoSpec<Action>>::obeys_into_spec()
            && <C as IntoSpec<Action>>::obeys_into_spec()
    }

    open spec fn value(self) -> T {
        self.0
    }

    open spec fn actions(self) -> Seq<Action> {
        seq![self.1.into_spec(), self.2.into_spec(), self.3.into_spec()]
    }

    open spec fn action_count(&self) -> nat {
        3
    }

    open spec fn converted_in_order(self, actions: Seq<Action>) -> bool {
        &&& actions.len() == 3
        &&& call_ensures(<A as Into<Action>>::into, (self.1,), actions[0])
        &&& call_ensures(<B as Into<Action>>::into, (self.2,), actions[1])
        &&& call_ensures(<C as Into<Action>>::into, (self.3,), actions[2])
    }

    fn convert(self) -> (r: (T, Vec<Action>)) {
        let (t, a, b, c) = self;
        let mut v: Vec<Action> = Vec::new();
        let into_a = <A as Into<Action>>::into;
        let into_b = <B as Into<Action>>::into;
        let into_c = <C as Into<Action>>::into;
        v.push(into_a(a));
        v.push(into_b(b));
        v.push(into_c(c));
        (t, v)
    }
}

impl<T, A, B, C, D> Sealed for (T, A, B, C, D) {
}

impl<T, Action, A: Into<Action>, B: Into<Action>, C: Into<Action>, D: Into<Action>> MethodReturn<Action> for (T, A, B, C, D) {
    type T = T;

    open spec fn conversions_specified(&self) -> bool {
        <A as IntoSpec<Action>>::obeys_into_spec()
            && <B as IntoSpec<Action>>::obeys_into_spec()
            && <C as IntoSpec<Action>>::obeys_into_spec()
            && <D as IntoSpec<Action>>::obeys_into_spec()
    }

    open spec fn value(self) -> T {
        self.0
    }

    open spec fn actions(self) -> Seq<Action> {
        seq![self.1.into_spec(), self.2.into_spec(), self.3.into_spec(), self.4.into_spec()]
    }

    open spec fn action_count(&self) -> nat {
        4
    }

    open spec fn converted_in_order(self, actions: Seq<Action>) -> bool {
        &&& actions.len() == 4
        &&& call_ensures(<A as Into<Action>>::into, (self.1,), actions[0])
        &&& call_ensures(<B as Into<Action>>::into, (self.2,), actions[1])
        &&& call_ensures(<C as Into<Action>>::into, (self.3,), actions[2])
        &&& call_ensures(<D as Into<Action>>::into, (self.4,), actions[3])
    }

    fn convert(self) -> (r: (T, Vec<Action>)) {
        let (t, a, b, c, d) = self;
        let mut v: Vec<Action> = Vec::new();
        let into_a = <A as Into<Action>>::into;
        let into_b = <B as Into<Action>>::into;
        let into_c = <C as Into<Action>>::into;
        let into_d = <D as Into<Action>>::into;
        v.push(into_a(a));
        v.push(into_b(b));
        v.push(into_c(c));
        v.push(into_d(d));
        (t, v)
    }
}

impl<T, A, B, C, D, E> Sealed for (T, A, B, C, D, E) {
}

impl<T, Action, A: Into<Action>, B: Into<Action>, C: Into<Action>, D: Into<Action>, E: Into<Action>> MethodReturn<Action> for (T, A, B, C, D, E) {
    type T = T;

    open spec fn conversions_specified(&self) -> bool {
        <A as IntoSpec<Action>>::obeys_into_spec()
            && <B as IntoSpec<Action>>::obeys_into_spec()
            && <C as IntoSpec<Action>>::obeys_into_spec()
            && <D as IntoSpec<Action>>::obeys_into_spec()
            && <E as IntoSpec<Action>>::obeys_into_spec()
    }

    open spec fn value(self) -> T {
        self.0
    }

    open spec fn actions(self) -> Seq<Action> {
        seq![self.1.into_spec(), self.2.into_spec(), self.3.into_spec(), self.4.into_spec(), self.5.into_spec()]
    }

    open spec fn action_count(&self) -> nat {
        5
    }

    open spec fn converted_in_order(self, actions: Seq<Action>) -> bool {
        &&& actions.len() == 5
        &&& call_ensures(<A as Into<Action>>::into, (self.1,), actions[0])
        &&& call_ensures(<B as Into<Action>>::into, (self.2,), actions[1])
        &&& call_ensures(<C as Into<Action>>::into, (self.3,), actions[2])
        &&& call_ensures(<D as Into<Action>>::into, (self.4,), actions[3])
        &&& call_ensures(<E as Into<Action>>::into, (self.5,), actions[4])
    }

    fn convert(self) -> (r: (T, Vec<Action>)) {
        let (t, a, b, c, d, e) = self;
        let mut v: Vec<Action> = Vec::new();
        let into_a = <A as Into<Action>>::into;
        let into_b = <B as Into<Action>>::into;
        let into_c = <C as Into<Action>>::into;
        let into_d = <D as Into<Action>>::into;
        let into_e = <E as Into<Action>>::into;
        v.push(into_a(a));
        v.push(into_b(b));
        v.push(into_c(c));
        v.push(into_d(d));
        v.push(into_e(e));
        (t, v)
    }
}

impl<T, A, B, C, D, E, F> Sealed for (T, A, B, C, D, E, F) {
}

impl<T, Action, A: Into<Action>, B: Into<Action>, C: Into<Action>, D: Into<Action>, E: Into<Action>, F: Into<Action>> MethodReturn<Action> for (T, A, B, C, D, E, F) {
    type T = T;

    open spec fn conversions_specified(&self) -> bool {
        <A as IntoSpec<Action>>::obeys_into_spec()
            && <B as IntoSpec<Action>>::obeys_into_spec()
            && <C as IntoSpec<Action>>::obeys_into_spec()
            && <D as IntoSpec<Action>>::obeys_into_spec()
            && <E as IntoSpec<Action>>::obeys_into_spec()
            && <F as IntoSpec<Action>>::obeys_into_spec()
    }

    open spec fn value(self) -> T {
        self.0
    }

    open spec fn actions(self) -> Seq<Action> {
        seq![self.1.into_spec(), self.2.into_spec(), self.3.into_spec(), self.4.into_spec(), self.5.into_spec(), self.6.into_spec()]
    }

    open spec fn action_count(&self) -> nat {
        6
    }

    open spec fn converted_in_order(self, actions: Seq<Action>) -> bool {
        &&& actions.len() == 6
        &&& call_ensures(<A as Into<Action>>::into, (self.1,), actions[0])
        &&& call_ensures(<B as Into<Action>>::into, (self.2,), actions[1])
        &&& call_ensures(<C as Into<Action>>::into, (self.3,), actions[2])
        &&& call_ensures(<D as Into<Action>>::into, (self.4,), actions[3])
        &&& call_ensures(<E as Into<Action>>::into, (self.5,), actions[4])
        &&& call_ensures(<F as Into<Action>>::into, (self.6,), actions[5])
    }

    fn convert(self) -> (r: (T, Vec<Action>)) {
        let (t, a, b, c, d, e, f) = self;
        let mut v: Vec<Action> = Vec::new();
        let into_a = <A as Into<Action>>::into;
        let into_b = <B as Into<Action>>::into;
        let into_c = <C as Into<Action>>::into;
        let into_d = <D as Into<Action>>::into;
        let into_e = <E as Into<Action>>::into;
        let into_f = <F as Into<Action>>::into;
        v.push(into_a(a));
        v.push(into_b(b));
        v.push(into_c(c));
        v.push(into_d(d));
        v.push(into_e(e));
        v.push(into_f(f));
        (t, v)
    }
}

impl<T, A, B, C, D, E, F, G> Sealed for (T, A, B, C, D, E, F, G) {
}

impl<T, Action, A: Into<Action>, B: Into<Action>, C: Into<Action>, D: Into<Action>, E: Into<Action>, F: Into<Action>, G: Into<Action>> MethodReturn<Action> for (T, A, B, C, D, E, F, G) {
    type T = T;

    open spec fn conversions_specified(&self) -> bool {
        <A as IntoSpec<Action>>::obeys_into_spec()
            && <B as IntoSpec<Action>>::obeys_into_spec()
            && <C as IntoSpec<Action>>::obeys_into_spec()
            && <D as IntoSpec<Action>>::obeys_into_spec()
            && <E as IntoSpec<Action>>::obeys_into_spec()
            && <F as IntoSpec<Action>>::obeys_into_spec()
            && <G as IntoSpec<Action>>::obeys_into_spec()
    }

    open spec fn value(self) -> T {
        self.0
    }

    open spec fn actions(self) -> Seq<Action> {
        seq![self.1.into_spec(), self.2.into_spec(), self.3.into_spec(), self.4.into_spec(), self.5.into_spec(), self.6.into_spec(), self.7.into_spec()]
    }

    open spec fn action_count(&self) -> nat {
        7
    }

    open spec fn converted_in_order(self, actions: Seq<Action>) -> bool {
        &&& actions.len() == 7
        &&& call_ensures(<A as Into<Action>>::into, (self.1,), actions[0])
        &&& call_ensures(<B as Into<Action>>::into, (self.2,), actions[1])
        &&& call_ensures(<C as Into<Action>>::into, (self.3,), actions[2])
        &&& call_ensures(<D as Into<Action>>::into, (self.4,), actions[3])
        &&& call_ensures(<E as Into<Action>>::into, (self.5,), actions[4])
        &&& call_ensures(<F as Into<Action>>::into, (self.6,), actions[5])
        &&& call_ensures(<G as Into<Action>>::into, (self.7,), actions[6])
    }

    fn convert(self) -> (r: (T, Vec<Action>)) {
        let (t, a, b, c, d, e, f, g) = self;
        let mut v: Vec<Action> = Vec::new();
        let into_a = <A as Into<Action>>::into;
        let into_b = <B as Into<Action>>::into;
        let into_c = <C as Into<Action>>::into;
        let into_d = <D as Into<Action>>::into;
        let into_e = <E as Into<Action>>::into;
        let into_f = <F as Into<Action>>::into;
        let into_g = <G as Into<Action>>::into;
        v.push(into_a(a));
        v.push(into_b(b));
        v.push(into_c(c));
        v.push(into_d(d));
        v.push(into_e(e));
        v.push(into_f(f));
        v.push(into_g(g));
        (t, v)
    }
}

impl<T, A, B, C, D, E, F, G, H> Sealed for (T, A, B, C, D, E, F, G, H) {
}

impl<T, Action, A: Into<Action>, B: Into<Action>, C: Into<Action>, D: Into<Action>, E: Into<Action>, F: Into<Action>, G: Into<Action>, H: Into<Action>> MethodReturn<Action> for (T, A, B, C, D, E, F, G, H) {
    type T = T;

    open spec fn conversions_specified(&self) -> bool {
        <A as IntoSpec<Action>>::obeys_into_spec()
            && <B as IntoSpec<Action>>::obeys_into_spec()
            && <C as IntoSpec<Action>>::obeys_into_spec()
            && <D as IntoSpec<Action>>::obeys_into_spec()
            && <E as IntoSpec<Action>>::obeys_into_spec()
            && <F as IntoSpec<Action>>::obeys_into_spec()
            && <G as IntoSpec<Action>>::obeys_into_spec()
            && <H as IntoSpec<Action>>::obeys_into_spec()
    }

    open spec fn value(self) -> T {
        self.0
    }

    open spec fn actions(self) -> Seq<Action> {
        seq![self.1.into_spec(), self.2.into_spec(), self.3.into_spec(), self.4.into_spec(), self.5.into_spec(), self.6.into_spec(), self.7.into_spec(), self.8.into_spec()]
    }

    open spec fn action_count(&self) -> nat {
        8
    }

    open spec fn converted_in_order(self, actions: Seq<Action>) -> bool {
        &&& actions.len() == 8
        &&& call_ensures(<A as Into<Action>>::into, (self.1,), actions[0])
        &&& call_ensures(<B as Into<Action>>::into, (self.2,), actions[1])
        &&& call_ensures(<C as Into<Action>>::into, (self.3,), actions[2])
        &&& call_ensures(<D as Into<Action>>::into, (self.4,), actions[3])
        &&& call_ensures(<E as Into<Action>>::into, (self.5,), actions[4])
        &&& call_ensures(<F as Into<Action>>::into, (self.6,), actions[5])
        &&& call_ensures(<G as Into<Action>>::into, (self.7,), actions[6])
        &&& call_ensures(<H as Into<Action>>::into, (self.8,), actions[7])
    }

    fn convert(self) -> (r: (T, Vec<Action>)) {
        let (t, a, b, c, d, e, f, g, h) = self;
        let mut v: Vec<Action> = Vec::new();
        let into_a = <A as Into<Action>>::into;
        let into_b = <B as Into<Action>>::into;
        let into_c = <C as Into<Action>>::into;
        let into_d = <D as Into<Action>>::into;
        let into_e = <E as Into<Action>>::into;
        let into_f = <F as Into<Action>>::into;
        let into_g = <G as Into<Action>>::into;
        let into_h = <H as Into<Action>>::into;
        v.push(into_a(a));
        v.push(into_b(b));
        v.push(into_c(c));
        v.push(into_d(d));
        v.push(into_e(e));
        v.push(into_f(f));
        v.push(into_g(g));
        v.push(into_h(h));
        (t, v)
    }
}

impl<T, A, B, C, D, E, F, G, H, I> Sealed for (T, A, B, C, D, E, F, G, H, I) {
}

impl<T, Action, A: Into<Action>, B: Into<Action>, C: Into<Action>, D: Into<Action>, E: Into<Action>, F: Into<Action>, G: Into<Action>, H: Into<Action>, I: Into<Action>> MethodReturn<Action> for (T, A, B, C, D, E, F, G, H, I) {
    type T = T;

    open spec fn conversions_specified(&self) -> bool {
        <A as IntoSpec<Action>>::obeys_into_spec()
            && <B as IntoSpec<Action>>::obeys_into_spec()
            && <C as IntoSpec<Action>>::obeys_into_spec()
            && <D as IntoSpec<Action>>::obeys_into_spec()
            && <E as IntoSpec<Action>>::obeys_into_spec()
            && <F as IntoSpec<Action>>::obeys_into_spec()
            && <G as IntoSpec<Action>>::obeys_into_spec()
            && <H as IntoSpec<Action>>::obeys_into_spec()
            && <I as IntoSpec<Action>>::obeys_into_spec()
    }

    open spec fn value(self) -> T {
        self.0
    }

    open spec fn actions(self) -> Seq<Action> {
        seq![self.1.into_spec(), self.2.into_spec(), self.3.into_spec(), self.4.into_spec(), self.5.into_spec(), self.6.into_spec(), self.7.into_spec(), self.8.into_spec(), self.9.into_spec()]
    }

    open spec fn action_count(&self) -> nat {
        9
    }

    open spec fn converted_in_order(self, actions: Seq<Action>) -> bool {
        &&& actions.len() == 9
        &&& call_ensures(<A as Into<Action>>::into, (self.1,), actions[0])
        &&& call_ensures(<B as Into<Action>>::into, (self.2,), actions[1])
        &&& call_ensures(<C as Into<Action>>::into, (self.3,), actions[2])
        &&& call_ensures(<D as Into<Action>>::into, (self.4,), actions[3])
        &&& call_ensures(<E as Into<Action>>::into, (self.5,), actions[4])
        &&& call_ensures(<F as Into<Action>>::into, (self.6,), actions[5])
        &&& call_ensures(<G as Into<Action>>::into, (self.7,), actions[6])
        &&& call_ensures(<H as Into<Action>>::into, (self.8,), actions[7])
        &&& call_ensures(<I as Into<Action>>::into, (self.9,), actions[8])
    }

    fn convert(self) -> (r: (T, Vec<Action>)) {
        let (t, a, b, c, d, e, f, g, h, i) = self;
        let mut v: Vec<Action> = Vec::new();
        let into_a = <A as Into<Action>>::into;
        let into_b = <B as Into<Action>>::into;
        let into_c = <C as Into<Action>>::into;
        let into_d = <D as Into<Action>>::into;
        let into_e = <E as Into<Action>>::into;
        let into_f = <F as Into<Action>>::into;
        let into_g = <G as Into<Action>>::into;
        let into_h = <H as Into<Action>>::into;
        let into_i = <I as Into<Action>>::into;
        v.push(into_a(a));
        v.push(into_b(b));
        v.push(into_c(c));
        v.push(into_d(d));
        v.push(into_e(e));
        v.push(into_f(f));
        v.push(into_g(g));
        v.push(into_h(h));
        v.push(into_i(i));
        (t, v)
    }
}

impl<T, A, B, C, D, E, F, G, H, I, J> Sealed for (T, A, B, C, D, E, F, G, H, I, J) {
}

impl<T, Action, A: Into<Action>, B: Into<Action>, C: Into<Action>, D: Into<Action>, E: Into<Action>, F: Into<Action>, G: Into<Action>, H: Into<Action>, I: Into<Action>, J: Into<Action>> MethodReturn<Action> for (T, A, B, C, D, E, F, G, H, I, J) {
    type T = T;

    open spec fn conversions_specified(&self) -> bool {
        <A as IntoSpec<Action>>::obeys_into_spec()
            && <B as IntoSpec<Action>>::obeys_into_spec()
            && <C as IntoSpec<Action>>::obeys_into_spec()
            && <D as IntoSpec<Action>>::obeys_into_spec()
            && <E as IntoSpec<Action>>::obeys_into_spec()
            && <F as IntoSpec<Action>>::obeys_into_spec()
            && <G as IntoSpec<Action>>::obeys_into_spec()
            && <H as IntoSpec<Action>>::obeys_into_spec()
            && <I as IntoSpec<Action>>::obeys_into_spec()
            && <J as IntoSpec<Action>>::obeys_into_spec()
    }

    open spec fn value(self) -> T {
        self.0
    }

    open spec fn actions(self) -> Seq<Action> {
        seq![self.1.into_spec(), self.2.into_spec(), self.3.into_spec(), self.4.into_spec(), self.5.into_spec(), self.6.into_spec(), self.7.into_spec(), self.8.into_spec(), self.9.into_spec(), self.10.into_spec()]
    }

    open spec fn action_count(&self) -> nat {
        10
    }

    open spec fn converted_in_order(self, actions: Seq<Action>) -> bool {
        &&& actions.len() == 10
        &&& call_ensures(<A as Into<Action>>::into, (self.1,), actions[0])
        &&& call_ensures(<B as Into<Action>>::into, (self.2,), actions[1])
        &&& call_ensures(<C as Into<Action>>::into, (self.3,), actions[2])
        &&& call_ensures(<D as Into<Action>>::into, (self.4,), actions[3])
        &&& call_ensures(<E as Into<Action>>::into, (self.5,), actions[4])
        &&& call_ensures(<F as Into<Action>>::into, (self.6,), actions[5])
        &&& call_ensures(<G as Into<Action>>::into, (self.7,), actions[6])
        &&& call_ensures(<H as Into<Action>>::into, (self.8,), actions[7])
        &&& call_ensures(<I as Into<Action>>::into, (self.9,), actions[8])
        &&& call_ensures(<J as Into<Action>>::into, (self.10,), actions[9])
    }

    fn convert(self) -> (r: (T, Vec<Action>)) {
        let (t, a, b, c, d, e, f, g, h, i, j) = self;
        let mut v: Vec<Action> = Vec::new();
        let into_a = <A as Into<Action>>::into;
        let into_b = <B as Into<Action>>::into;
        let into_c = <C as Into<Action>>::into;
        let into_d = <D as Into<Action>>::into;
        let into_e = <E as Into<Action>>::into;
        let into_f = <F as Into<Action>>::into;
        let into_g = <G as Into<Action>>::into;
        let into_h = <H as Into<Action>>::into;
        let into_i = <I as Into<Action>>::into;
        let into_j = <J as Into<Action>>::into;
        v.push(into_a(a));
        v.push(into_b(b));
        v.push(into_c(c));
        v.push(into_d(d));
        v.push(into_e(e));
        v.push(into_f(f));
        v.push(into_g(g));
        v.push(into_h(h));
        v.push(into_i(i));
        v.push(into_j(j));
        (t, v)
    }
}

impl<T, A, B, C, D, E, F, G, H, I, J, K> Sealed for (T, A, B, C, D, E, F, G, H, I, J, K) {
}

impl<T, Action, A: Into<Action>, B: Into<Action>, C: Into<Action>, D: Into<Action>, E: Into<Action>, F: Into<Action>, G: Into<Action>, H: Into<Action>, I: Into<Action>, J: Into<Action>, K: Into<Action>> MethodReturn<Action> for (T, A, B, C, D, E, F, G, H, I, J, K) {
    type T = T;

    open spec fn conversions_specified(&self) -> bool {
        <A as IntoSpec<Action>>::obeys_into_spec()
            && <B as IntoSpec<Action>>::obeys_into_spec()
            && <C as IntoSpec<Action>>::obeys_into_spec()
            && <D as IntoSpec<Action>>::obeys_into_spec()
            && <E as IntoSpec<Action>>::obeys_into_spec()
            && <F as IntoSpec<Action>>::obeys_into_spec()
            && <G as IntoSpec<Action>>::obeys_into_spec()
            && <H as IntoSpec<Action>>::obeys_into_spec()
            && <I as IntoSpec<Action>>::obeys_into_spec()
            && <J as IntoSpec<Action>>::obeys_into_spec()
            && <K as IntoSpec<Action>>::obeys_into_spec()
    }

    open spec fn value(self) -> T {
        self.0
    }

    open spec fn actions(self) -> Seq<Action> {
        seq![self.1.into_spec(), self.2.into_spec(), self.3.into_spec(), self.4.into_spec(), self.5.into_spec(), self.6.into_spec(), self.7.into_spec(), self.8.into_spec(), self.9.into_spec(), self.10.into_spec(), self.11.into_spec()]
    }

    open spec fn action_count(&self) -> nat {
        11
    }

    open spec fn converted_in_order(self, actions: Seq<Action>) -> bool {
        &&& actions.len() == 11
        &&& call_ensures(<A as Into<Action>>::into, (self.1,), actions[0])
        &&& call_ensures(<B as Into<Action>>::into, (self.2,), actions[1])
        &&& call_ensures(<C as Into<Action>>::into, (self.3,), actions[2])
        &&& call_ensures(<D as Into<Action>>::into, (self.4,), actions[3])
        &&& call_ensures(<E as Into<Action>>::into, (self.5,), actions[4])
        &&& call_ensures(<F as Into<Action>>::into, (self.6,), actions[5])
        &&& call_ensures(<G as Into<Action>>::into, (self.7,), actions[6])
        &&& call_ensures(<H as Into<Action>>::into, (self.8,), actions[7])
        &&& call_ensures(<I as Into<Action>>::into, (self.9,), actions[8])
        &&& call_ensures(<J as Into<Action>>::into, (self.10,), actions[9])
        &&& call_ensures(<K as Into<Action>>::into, (self.11,), actions[10])
    }

    fn convert(self) -> (r: (T, Vec<Action>)) {
        let (t, a, b, c, d, e, f, g, h, i, j, k) = self;
        let mut v: Vec<Action> = Vec::new();
        let into_a = <A as Into<Action>>::into;
        let into_b = <B as Into<Action>>::into;
        let into_c = <C as Into<Action>>::into;
        let into_d = <D as Into<Action>>::into;
        let into_e = <E as Into<Action>>::into;
        let into_f = <F as Into<Action>>::into;
        let into_g = <G as Into<Action>>::into;
        let into_h = <H as Into<Action>>::into;
        let into_i = <I as Into<Action>>::into;
        let into_j = <J as Into<Action>>::into;
        let into_k = <K as Into<Action>>::into;
        v.push(into_a(a));
        v.push(into_b(b));
        v.push(into_c(c));
        v.push(into_d(d));
        v.push(into_e(e));
        v.push(into_f(f));
        v.push(into_g(g));
        v.push(into_h(h));
        v.push(into_i(i));
        v.push(into_j(j));
        v.push(into_k(k));
        (t, v)
    }
}

impl<T, A, B, C, D, E, F, G, H, I, J, K, L> Sealed for (T, A, B, C, D, E, F, G, H, I, J, K, L) {
}

impl<T, Action, A: Into<Action>, B: Into<Action>, C: Into<Action>, D: Into<Action>, E: Into<Action>, F: Into<Action>, G: Into<Action>, H: Into<Action>, I: Into<Action>, J: Into<Action>, K: Into<Action>, L: Into<Action>> MethodReturn<Action> for (T, A, B, C, D, E, F, G, H, I, J, K, L) {
    type T = T;

    open spec fn conversions_specified(&self) -> bool {
        <A as IntoSpec<Action>>::obeys_into_spec()
            && <B as IntoSpec<Action>>::obeys_into_spec()
            && <C as IntoSpec<Action>>::obeys_into_spec()
            && <D as IntoSpec<Action>>::obeys_into_spec()
            && <E as IntoSpec<Action>>::obeys_into_spec()
            && <F as IntoSpec<Action>>::obeys_into_spec()
            && <G as IntoSpec<Action>>::obeys_into_spec()
            && <H as IntoSpec<Action>>::obeys_into_spec()
            && <I as IntoSpec<Action>>::obeys_into_spec()
            && <J as IntoSpec<Action>>::obeys_into_spec()
            && <K as IntoSpec<Action>>::obeys_into_spec()
            && <L as IntoSpec<Action>>::obeys_into_spec()
    }

    open spec fn value(self) -> T {
        self.0
    }

    open spec fn actions(self) -> Seq<Action> {
        seq![self.1.into_spec(), self.2.into_spec(), self.3.into_spec(), self.4.into_spec(), self.5.into_spec(), self.6.into_spec(), self.7.into_spec(), self.8.into_spec(), self.9.into_spec(), self.10.into_spec(), self.11.into_spec(), self.12.into_spec()]
    }

    open spec fn action_count(&self) -> nat {
        12
    }

    open spec fn converted_in_order(self, actions: Seq<Action>) -> bool {
        &&& actions.len() == 12
        &&& call_ensures(<A as Into<Action>>::into, (self.1,), actions[0])
        &&& call_ensures(<B as Into<Action>>::into, (self.2,), actions[1])
        &&& call_ensures(<C as Into<Action>>::into, (self.3,), actions[2])
        &&& call_ensures(<D as Into<Action>>::into, (self.4,), actions[3])
        &&& call_ensures(<E as Into<Action>>::into, (self.5,), actions[4])
        &&& call_ensures(<F as Into<Action>>::into, (self.6,), actions[5])
        &&& call_ensures(<G as Into<Action>>::into, (self.7,), actions[6])
        &&& call_ensures(<H as Into<Action>>::into, (self.8,), actions[7])
        &&& call_ensures(<I as Into<Action>>::into, (self.9,), actions[8])
        &&& call_ensures(<J as Into<Action>>::into, (self.10,), actions[9])
        &&& call_ensures(<K as Into<Action>>::into, (self.11,), actions[10])
        &&& call_ensures(<L as Into<Action>>::into, (self.12,), actions[11])
    }

    fn convert(self) -> (r: (T, Vec<Action>)) {
        let (t, a, b, c, d, e, f, g, h, i, j, k, l) = self;
        let mut v: Vec<Action> = Vec::new();
        let into_a = <A as Into<Action>>::into;
        let into_b = <B as Into<Action>>::into;
        let into_c = <C as Into<Action>>::into;
        let into_d = <D as Into<Action>>::into;
        let into_e = <E as Into<Action>>::into;
        let into_f = <F as Into<Action>>::into;
        let into_g = <G as Into<Action>>::into;
        let into_h = <H as Into<Action>>::into;
        let into_i = <I as Into<Action>>::into;
        let into_j = <J as Into<Action>>::into;
        let into_k = <K as Into<Action>>::into;
        let into_l = <L as Into<Action>>::into;
        v.push(into_a(a));
        v.push(into_b(b));
        v.push(into_c(c));
        v.push(into_d(d));
        v.push(into_e(e));
        v.push(into_f(f));
        v.push(into_g(g));
        v.push(into_h(h));
        v.push(into_i(i));
        v.push(into_j(j));
        v.push(into_k(k));
        v.push(into_l(l));
        (t, v)
    }
}

impl<T, A, B, C, D, E, F, G, H, I, J, K, L, M> Sealed for (T, A, B, C, D, E, F, G, H, I, J, K, L, M) {
}

impl<T, Action, A: Into<Action>, B: Into<Action>, C: Into<Action>, D: Into<Action>, E: Into<Action>, F: Into<Action>, G: Into<Action>, H: Into<Action>, I: Into<Action>, J: Into<Action>, K: Into<Action>, L: Into<Action>, M: Into<Action>> MethodReturn<Action> for (T, A, B, C, D, E, F, G, H, I, J, K, L, M) {
    type T = T;

    open spec fn conversions_specified(&self) -> bool {
        <A as IntoSpec<Action>>::obeys_into_spec()
            && <B as IntoSpec<Action>>::obeys_into_spec()
            && <C as IntoSpec<Action>>::obeys_into_spec()
            && <D as IntoSpec<Action>>::obeys_into_spec()
            && <E as IntoSpec<Action>>::obeys_into_spec()
            && <F as IntoSpec<Action>>::obeys_into_spec()
            && <G as IntoSpec<Action>>::obeys_into_spec()
            && <H as IntoSpec<Action>>::obeys_into_spec()
            && <I as IntoSpec<Action>>::obeys_into_spec()
            && <J as IntoSpec<Action>>::obeys_into_spec()
            && <K as IntoSpec<Action>>::obeys_into_spec()
            && <L as IntoSpec<Action>>::obeys_into_spec()
            && <M as IntoSpec<Action>>::obeys_into_spec()
    }

    open spec fn value(self) -> T {
        self.0
    }

    open spec fn actions(self) -> Seq<Action> {
        seq![self.1.into_spec(), self.2.into_spec(), self.3.into_spec(), self.4.into_spec(), self.5.into_spec(), self.6.into_spec(), self.7.into_spec(), self.8.into_spec(), self.9.into_spec(), self.10.into_spec(), self.11.into_spec(), self.12.into_spec(), self.13.into_spec()]
    }

    open spec fn action_count(&self) -> nat {
        13
    }

    open spec fn converted_in_order(self, actions: Seq<Action>) -> bool {
        &&& actions.len() == 13
        &&& call_ensures(<A as Into<Action>>::into, (self.1,), actions[0])
        &&& call_ensures(<B as Into<Action>>::into, (self.2,), actions[1])
        &&& call_ensures(<C as Into<Action>>::into, (self.3,), actions[2])
        &&& call_ensures(<D as Into<Action>>::into, (self.4,), actions[3])
        &&& call_ensures(<E as Into<Action>>::into, (self.5,), actions[4])
        &&& call_ensures(<F as Into<Action>>::into, (self.6,), actions[5])
        &&& call_ensures(<G as Into<Action>>::into, (self.7,), actions[6])
        &&& call_ensures(<H as Into<Action>>::into, (self.8,), actions[7])
        &&& call_ensures(<I as Into<Action>>::into, (self.9,), actions[8])
        &&& call_ensures(<J as Into<Action>>::into, (self.10,), actions[9])
        &&& call_ensures(<K as Into<Action>>::into, (self.11,), actions[10])
        &&& call_ensures(<L as Into<Action>>::into, (self.12,), actions[11])
        &&& call_ensures(<M as Into<Action>>::into, (self.13,), actions[12])
    }

    fn convert(self) -> (r: (T, Vec<Action>)) {
        let (t, a, b, c, d, e, f, g, h, i, j, k, l, m) = self;
        let mut v: Vec<Action> = Vec::new();
        let into_a = <A as Into<Action>>::into;
        let into_b = <B as Into<Action>>::into;
        let into_c = <C as Into<Action>>::into;
        let into_d = <D as Into<Action>>::into;
        let into_e = <E as Into<Action>>::into;
        let into_f = <F as Into<Action>>::into;
        let into_g = <G as Into<Action>>::into;
        let into_h = <H as Into<Action>>::into;
        let into_i = <I as Into<Action>>::into;
        let into_j = <J as Into<Action>>::into;
        let into_k = <K as Into<Action>>::into;
        let into_l = <L as Into<Action>>::into;
        let into_m = <M as Into<Action>>::into;
        v.push(into_a(a));
        v.push(into_b(b));
        v.push(into_c(c));
        v.push(into_d(d));
        v.push(into_e(e));
        v.push(into_f(f));
        v.push(into_g(g));
        v.push(into_h(h));
        v.push(into_i(i));
        v.push(into_j(j));
        v.push(into_k(k));
        v.push(into_l(l));
        v.push(into_m(m));
        (t, v)
    }
}

impl<T, A, B, C, D, E, F, G, H, I, J, K, L, M, N> Sealed for (T, A, B, C, D, E, F, G, H, I, J, K, L, M, N) {
}

impl<T, Action, A: Into<Action>, B: Into<Action>, C: Into<Action>, D: Into<Action>, E: Into<Action>, F: Into<Action>, G: Into<Action>, H: Into<Action>, I: Into<Action>, J: Into<Action>, K: Into<Action>, L: Into<Action>, M: Into<Action>, N: Into<Action>> MethodReturn<Action> for (T, A, B, C, D, E, F, G, H, I, J, K, L, M, N) {
    type T = T;

    open spec fn conversions_specified(&self) -> bool {
        <A as IntoSpec<Action>>::obeys_into_spec()
            && <B as IntoSpec<Action>>::obeys_into_spec()
            && <C as IntoSpec<Action>>::obeys_into_spec()
            && <D as IntoSpec<Action>>::obeys_into_spec()
            && <E as IntoSpec<Action>>::obeys_into_spec()
            && <F as IntoSpec<Action>>::obeys_into_spec()
            && <G as IntoSpec<Action>>::obeys_into_spec()
            && <H as IntoSpec<Action>>::obeys_into_spec()
            && <I as IntoSpec<Action>>::obeys_into_spec()
            && <J as IntoSpec<Action>>::obeys_into_spec()
            && <K as IntoSpec<Action>>::obeys_into_spec()
            && <L as IntoSpec<Action>>::obeys_into_spec()
            && <M as IntoSpec<Action>>::obeys_into_spec()
            && <N as IntoSpec<Action>>::obeys_into_spec()
    }

    open spec fn value(self) -> T {
        self.0
    }

    open spec fn actions(self) -> Seq<Action> {
        seq![self.1.into_spec(), self.2.into_spec(), self.3.into_spec(), self.4.into_spec(), self.5.into_spec(), self.6.into_spec(), self.7.into_spec(), self.8.into_spec(), self.9.into_spec(), self.10.into_spec(), self.11.into_spec(), self.12.into_spec(), self.13.into_spec(), self.14.into_spec()]
    }

    open spec fn action_count(&self) -> nat {
        14
    }

    open spec fn converted_in_order(self, actions: Seq<Action>) -> bool {
        &&& actions.len() == 14
        &&& call_ensures(<A as Into<Action>>::into, (self.1,), actions[0])
        &&& call_ensures(<B as Into<Action>>::into, (self.2,), actions[1])
        &&& call_ensures(<C as Into<Action>>::into, (self.3,), actions[2])
        &&& call_ensures(<D as Into<Action>>::into, (self.4,), actions[3])
        &&& call_ensures(<E as Into<Action>>::into, (self.5,), actions[4])
        &&& call_ensures(<F as Into<Action>>::into, (self.6,), actions[5])
        &&& call_ensures(<G as Into<Action>>::into, (self.7,), actions[6])
        &&& call_ensures(<H as Into<Action>>::into, (self.8,), actions[7])
        &&& call_ensures(<I as Into<Action>>::into, (self.9,), actions[8])
        &&& call_ensures(<J as Into<Action>>::into, (self.10,), actions[9])
        &&& call_ensures(<K as Into<Action>>::into, (self.11,), actions[10])
        &&& call_ensures(<L as Into<Action>>::into, (self.12,), actions[11])
        &&& call_ensures(<M as Into<Action>>::into, (self.13,), actions[12])
        &&& call_ensures(<N as Into<Action>>::into, (self.14,), actions[13])
    }

    fn convert(self) -> (r: (T, Vec<Action>)) {
        let (t, a, b, c, d, e, f, g, h, i, j, k, l, m, n) = self;
        let mut v: Vec<Action> = Vec::new();
        let into_a = <A as Into<Action>>::into;
        let into_b = <B as Into<Action>>::into;
        let into_c = <C as Into<Action>>::into;
        let into_d = <D as Into<Action>>::into;
        let into_e = <E as Into<Action>>::into;
        let into_f = <F as Into<Action>>::into;
        let into_g = <G as Into<Action>>::into;
        let into_h = <H as Into<Action>>::into;
        let into_i = <I as Into<Action>>::into;
        let into_j = <J as Into<Action>>::into;
        let into_k = <K as Into<Action>>::into;
        let into_l = <L as Into<Action>>::into;
        let into_m = <M as Into<Action>>::into;
        let into_n = <N as Into<Action>>::into;
        v.push(into_a(a));
        v.push(into_b(b));
        v.push(into_c(c));
        v.push(into_d(d));
        v.push(into_e(e));
        v.push(into_f(f));
        v.push(into_g(g));
        v.push(into_h(h));
        v.push(into_i(i));
        v.push(into_j(j));
        v.push(into_k(k));
        v.push(into_l(l));
        v.push(into_m(m));
        v.push(into_n(n));
        (t, v)
    }
}

impl<T, A, B, C, D, E, F, G, H, I, J, K, L, M, N, O> Sealed for (T, A, B, C, D, E, F, G, H, I, J, K, L, M, N, O) {
}

impl<T, Action, A: Into<Action>, B: Into<Action>, C: Into<Action>, D: Into<Action>, E: Into<Action>, F: Into<Action>, G: Into<Action>, H: Into<Action>, I: Into<Action>, J: Into<Action>, K: Into<Action>, L: Into<Action>, M: Into<Action>, N: Into<Action>, O: Into<Action>> MethodReturn<Action> for (T, A, B, C, D, E, F, G, H, I, J, K, L, M, N, O) {
    type T = T;

    open spec fn conversions_specified(&self) -> bool {
        <A as IntoSpec<Action>>::obeys_into_spec()
            && <B as IntoSpec<Action>>::obeys_into_spec()
            && <C as IntoSpec<Action>>::obeys_into_spec()
            && <D as IntoSpec<Action>>::obeys_into_spec()
            && <E as IntoSpec<Action>>::obeys_into_spec()
            && <F as IntoSpec<Action>>::obeys_into_spec()
            && <G as IntoSpec<Action>>::obeys_into_spec()
            && <H as IntoSpec<Action>>::obeys_into_spec()
            && <I as IntoSpec<Action>>::obeys_into_spec()
            && <J as IntoSpec<Action>>::obeys_into_spec()
            && <K as IntoSpec<Action>>::obeys_into_spec()
            && <L as IntoSpec<Action>>::obeys_into_spec()
            && <M as IntoSpec<Action>>::obeys_into_spec()
            && <N as IntoSpec<Action>>::obeys_into_spec()
            && <O as IntoSpec<Action>>::obeys_into_spec()
    }

    open spec fn value(self) -> T {
        self.0
    }

    open spec fn actions(self) -> Seq<Action> {
        seq![self.1.into_spec(), self.2.into_spec(), self.3.into_spec(), self.4.into_spec(), self.5.into_spec(), self.6.into_spec(), self.7.into_spec(), self.8.into_spec(), self.9.into_spec(), self.10.into_spec(), self.11.into_spec(), self.12.into_spec(), self.13.into_spec(), self.14.into_spec(), self.15.into_spec()]
    }

    open spec fn action_count(&self) -> nat {
        15
    }

    open spec fn converted_in_order(self, actions: Seq<Action>) -> bool {
        &&& actions.len() == 15
        &&& call_ensures(<A as Into<Action>>::into, (self.1,), actions[0])
        &&& call_ensures(<B as Into<Action>>::into, (self.2,), actions[1])
        &&& call_ensures(<C as Into<Action>>::into, (self.3,), actions[2])
        &&& call_ensures(<D as Into<Action>>::into, (self.4,), actions[3])
        &&& call_ensures(<E as Into<Action>>::into, (self.5,), actions[4])
        &&& call_ensures(<F as Into<Action>>::into, (self.6,), actions[5])
        &&& call_ensures(<G as Into<Action>>::into, (self.7,), actions[6])
        &&& call_ensures(<H as Into<Action>>::into, (self.8,), actions[7])
        &&& call_ensures(<I as Into<Action>>::into, (self.9,), actions[8])
        &&& call_ensures(<J as Into<Action>>::into, (self.10,), actions[9])
        &&& call_ensures(<K as Into<Action>>::into, (self.11,), actions[10])
        &&& call_ensures(<L as Into<Action>>::into, (self.12,), actions[11])
        &&& call_ensures(<M as Into<Action>>::into, (self.13,), actions[12])
        &&& call_ensures(<N as Into<Action>>::into, (self.14,), actions[13])
        &&& call_ensures(<O as Into<Action>>::into, (self.15,), actions[14])
    }

    fn convert(self) -> (r: (T, Vec<Action>)) {
        let (t, a, b, c, d, e, f, g, h, i, j, k, l, m, n, o) = self;
        let mut v: Vec<Action> = Vec::new();
        let into_a = <A as Into<Action>>::into;
        let into_b = <B as Into<Action>>::into;
        let into_c = <C as Into<Action>>::into;
        let into_d = <D as Into<Action>>::into;
        let into_e = <E as Into<Action>>::into;
        let into_f = <F as Into<Action>>::into;
        let into_g = <G as Into<Action>>::into;
        let into_h = <H as Into<Action>>::into;
        let into_i = <I as Into<Action>>::into;
        let into_j = <J as Into<Action>>::into;
        let into_k = <K as Into<Action>>::into;
        let into_l = <L as Into<Action>>::into;
        let into_m = <M as Into<Action>>::into;
        let into_n = <N as Into<Action>>::into;
        let into_o = <O as Into<Action>>::into;
        v.push(into_a(a));
        v.push(into_b(b));
        v.push(into_c(c));
        v.push(into_d(d));
        v.push(into_e(e));
        v.push(into_f(f));
        v.push(into_g(g));
        v.push(into_h(h));
        v.push(into_i(i));
        v.push(into_j(j));
        v.push(into_k(k));
        v.push(into_l(l));
        v.push(into_m(m));
        v.push(into_n(n));
        v.push(into_o(o));
        (t, v)
    }
}

impl<T, A, B, C, D, E, F, G, H, I, J, K, L, M, N, O, P> Sealed for (T, A, B, C, D, E, F, G, H, I, J, K, L, M, N, O, P) {
}

impl<T, Action, A: Into<Action>, B: Into<Action>, C: Into<Action>, D: Into<Action>, E: Into<Action>, F: Into<Action>, G: Into<Action>, H: Into<Action>, I: Into<Action>, J: Into<Action>, K: Into<Action>, L: Into<Action>, M: Into<Action>, N: Into<Action>, O: Into<Action>, P: Into<Action>> MethodReturn<Action> for (T, A, B, C, D, E, F, G, H, I, J, K, L, M, N, O, P) {
    type T = T;

    open spec fn conversions_specified(&self) -> bool {
        <A as IntoSpec<Action>>::obeys_into_spec()
            && <B as IntoSpec<Action>>::obeys_into_spec()
            && <C as IntoSpec<Action>>::obeys_into_spec()
            && <D as IntoSpec<Action>>::obeys_into_spec()
            && <E as IntoSpec<Action>>::obeys_into_spec()
            && <F as IntoSpec<Action>>::obeys_into_spec()
            && <G as IntoSpec<Action>>::obeys_into_spec()
            && <H as IntoSpec<Action>>::obeys_into_spec()
            && <I as IntoSpec<Action>>::obeys_into_spec()
            && <J as IntoSpec<Action>>::obeys_into_spec()
            && <K as IntoSpec<Action>>::obeys_into_spec()
            && <L as IntoSpec<Action>>::obeys_into_spec()
            && <M as IntoSpec<Action>>::obeys_into_spec()
            && <N as IntoSpec<Action>>::obeys_into_spec()
            && <O as IntoSpec<Action>>::obeys_into_spec()
            && <P as IntoSpec<Action>>::obeys_into_spec()
    }

    open spec fn value(self) -> T {
        self.0
    }

    open spec fn actions(self) -> Seq<Action> {
        seq![self.1.into_spec(), self.2.into_spec(), self.3.into_spec(), self.4.into_spec(), self.5.into_spec(), self.6.into_spec(), self.7.into_spec(), self.8.into_spec(), self.9.into_spec(), self.10.into_spec(), self.11.into_spec(), self.12.into_spec(), self.13.into_spec(), self.14.into_spec(), self.15.into_spec(), self.16.into_spec()]
    }

    open spec fn action_count(&self) -> nat {
        16
    }

    open spec fn converted_in_order(self, actions: Seq<Action>) -> bool {
        &&& actions.len() == 16
        &&& call_ensures(<A as Into<Action>>::into, (self.1,), actions[0])
        &&& call_ensures(<B as Into<Action>>::into, (self.2,), actions[1])
        &&& call_ensures(<C as Into<Action>>::into, (self.3,), actions[2])
        &&& call_ensures(<D as Into<Action>>::into, (self.4,), actions[3])
        &&& call_ensures(<E as Into<Action>>::into, (self.5,), actions[4])
        &&& call_ensures(<F as Into<Action>>::into, (self.6,), actions[5])
        &&& call_ensures(<G as Into<Action>>::into, (self.7,), actions[6])
        &&& call_ensures(<H as Into<Action>>::into, (self.8,), actions[7])
        &&& call_ensures(<I as Into<Action>>::into, (self.9,), actions[8])
        &&& call_ensures(<J as Into<Action>>::into, (self.10,), actions[9])
        &&& call_ensures(<K as Into<Action>>::into, (self.11,), actions[10])
        &&& call_ensures(<L as Into<Action>>::into, (self.12,), actions[11])
        &&& call_ensures(<M as Into<Action>>::into, (self.13,), actions[12])
        &&& call_ensures(<N as Into<Action>>::into, (self.14,), actions[13])
        &&& call_ensures(<O as Into<Action>>::into, (self.15,), actions[14])
        &&& call_ensures(<P as Into<Action>>::into, (self.16,), actions[15])
    }

    fn convert(self) -> (r: (T, Vec<Action>)) {
        let (t, a, b, c, d, e, f, g, h, i, j, k, l, m, n, o, p) = self;
        let mut v: Vec<Action> = Vec::new();
        let into_a = <A as Into<Action>>::into;
        let into_b = <B as Into<Action>>::into;
        let into_c = <C as Into<Action>>::into;
        let into_d = <D as Into<Action>>::into;
        let into_e = <E as Into<Action>>::into;
        let into_f = <F as Into<Action>>::into;
        let into_g = <G as Into<Action>>::into;
        let into_h = <H as Into<Action>>::into;
        let into_i = <I as Into<Action>>::into;
        let into_j = <J as Into<Action>>::into;
        let into_k = <K as Into<Action>>::into;
        let into_l = <L as Into<Action>>::into;
        let into_m = <M as Into<Action>>::into;
        let into_n = <N as Into<Action>>::into;
        let into_o = <O as Into<Action>>::into;
        let into_p = <P as Into<Action>>::into;
        v.push(into_a(a));
        v.push(into_b(b));
        v.push(into_c(c));
        v.push(into_d(d));
        v.push(into_e(e));
        v.push(into_f(f));
        v.push(into_g(g));
        v.push(into_h(h));
        v.push(into_i(i));
        v.push(into_j(j));
        v.push(into_k(k));
        v.push(into_l(l));
        v.push(into_m(m));
        v.push(into_n(n));
        v.push(into_o(o));
        v.push(into_p(p));
        (t, v)
    }
}

impl<Action, A: Into<Action>> SetReturn<Action> for (A,) {
    open spec fn conversions_specified(&self) -> bool {
        <A as IntoSpec<Action>>::obeys_into_spec()
    }

    open spec fn actions(self) -> Seq<Action> {
        seq![self.0.into_spec()]
    }

    open spec fn action_count(&self) -> nat {
        1
    }

    open spec fn converted_in_order(self, actions: Seq<Action>) -> bool {
        &&& actions.len() == 1
        &&& call_ensures(<A as Into<Action>>::into, (self.0,), actions[0])
    }

    fn convert(self) -> (r: Vec<Action>) {
        let (a,) = self;
        let mut v: Vec<Action> = Vec::new();
        let into_a = <A as Into<Action>>::into;
        v.push(into_a(a));
        v
    }
}

impl<Action, A: Into<Action>, B: Into<Action>> SetReturn<Action> for (A, B) {
    open spec fn conversions_specified(&self) -> bool {
        <A as IntoSpec<Action>>::obeys_into_spec()
            && <B as IntoSpec<Action>>::obeys_into_spec()
    }

    open spec fn actions(self) -> Seq<Action> {
        seq![self.0.into_spec(), self.1.into_spec()]
    }

    open spec fn action_count(&self) -> nat {
        2
    }

    open spec fn converted_in_order(self, actions: Seq<Action>) -> bool {
        &&& actions.len() == 2
        &&& call_ensures(<A as Into<Action>>::into, (self.0,), actions[0])
        &&& call_ensures(<B as Into<Action>>::into, (self.1,), actions[1])
    }

    fn convert(self) -> (r: Vec<Action>) {
        let (a, b) = self;
        let mut v: Vec<Action> = Vec::new();
        let into_a = <A as Into<Action>>::into;
        let into_b = <B as Into<Action>>::into;
        v.push(into_a(a));
        v.push(into_b(b));
        v
    }
}

impl<Action, A: Into<Action>, B: Into<Action>, C: Into<Action>> SetReturn<Action> for (A, B, C) {
    open spec fn conversions_specified(&self) -> bool {
        <A as IntoSpec<Action>>::obeys_into_spec()
            && <B as IntoSpec<Action>>::obeys_into_spec()
            && <C as IntoSpec<Action>>::obeys_into_spec()
    }

    open spec fn actions(self) -> Seq<Action> {
        seq![self.0.into_spec(), self.1.into_spec(), self.2.into_spec()]
    }

    open spec fn action_count(&self) -> nat {
        3
    }

    open spec fn converted_in_order(self, actions: Seq<Action>) -> bool {
        &&& actions.len() == 3
        &&& call_ensures(<A as Into<Action>>::into, (self.0,), actions[0])
        &&& call_ensures(<B as Into<Action>>::into, (self.1,), actions[1])
        &&& call_ensures(<C as Into<Action>>::into, (self.2,), actions[2])
    }

    fn convert(self) -> (r: Vec<Action>) {
        let (a, b, c) = self;
        let mut v: Vec<Action> = Vec::new();
        let into_a = <A as Into<Action>>::into;
        let into_b = <B as Into<Action>>::into;
        let into_c = <C as Into<Action>>::into;
        v.push(into_a(a));
        v.push(into_b(b));
        v.push(into_c(c));
        v
    }
}

impl<Action, A: Into<Action>, B: Into<Action>, C: Into<Action>, D: Into<Action>> SetReturn<Action> for (A, B, C, D) {
    open spec fn conversions_specified(&self) -> bool {
        <A as IntoSpec<Action>>::obeys_into_spec()
            && <B as IntoSpec<Action>>::obeys_into_spec()
            && <C as IntoSpec<Action>>::obeys_into_spec()
            && <D as IntoSpec<Action>>::obeys_into_spec()
    }

    open spec fn actions(self) -> Seq<Action> {
        seq![self.0.into_spec(), self.1.into_spec(), self.2.into_spec(), self.3.into_spec()]
    }

    open spec fn action_count(&self) -> nat {
        4
    }

    open spec fn converted_in_order(self, actions: Seq<Action>) -> bool {
        &&& actions.len() == 4
        &&& call_ensures(<A as Into<Action>>::into, (self.0,), actions[0])
        &&& call_ensures(<B as Into<Action>>::into, (self.1,), actions[1])
        &&& call_ensures(<C as Into<Action>>::into, (self.2,), actions[2])
        &&& call_ensures(<D as Into<Action>>::into, (self.3,), actions[3])
    }

    fn convert(self) -> (r: Vec<Action>) {
        let (a, b, c, d) = self;
        let mut v: Vec<Action> = Vec::new();
        let into_a = <A as Into<Action>>::into;
        let into_b = <B as Into<Action>>::into;
        let into_c = <C as Into<Action>>::into;
        let into_d = <D as Into<Action>>::into;
        v.push(into_a(a));
        v.push(into_b(b));
        v.push(into_c(c));
        v.push(into_d(d));
        v
    }
}

impl<Action, A: Into<Action>, B: Into<Action>, C: Into<Action>, D: Into<Action>, E: Into<Action>> SetReturn<Action> for (A, B, C, D, E) {
    open spec fn conversions_specified(&self) -> bool {
        <A as IntoSpec<Action>>::obeys_into_spec()
            && <B as IntoSpec<Action>>::obeys_into_spec()
            && <C as IntoSpec<Action>>::obeys_into_spec()
            && <D as IntoSpec<Action>>::obeys_into_spec()
            && <E as IntoSpec<Action>>::obeys_into_spec()
    }

    open spec fn actions(self) -> Seq<Action> {
        seq![self.0.into_spec(), self.1.into_spec(), self.2.into_spec(), self.3.into_spec(), self.4.into_spec()]
    }

    open spec fn action_count(&self) -> nat {
        5
    }

    open spec fn converted_in_order(self, actions: Seq<Action>) -> bool {
        &&& actions.len() == 5
        &&& call_ensures(<A as Into<Action>>::into, (self.0,), actions[0])
        &&& call_ensures(<B as Into<Action>>::into, (self.1,), actions[1])
        &&& call_ensures(<C as Into<Action>>::into, (self.2,), actions[2])
        &&& call_ensures(<D as Into<Action>>::into, (self.3,), actions[3])
        &&& call_ensures(<E as Into<Action>>::into, (self.4,), actions[4])
    }

    fn convert(self) -> (r: Vec<Action>) {
        let (a, b, c, d, e) = self;
        let mut v: Vec<Action> = Vec::new();
        let into_a = <A as Into<Action>>::into;
        let into_b = <B as Into<Action>>::into;
        let into_c = <C as Into<Action>>::into;
        let into_d = <D as Into<Action>>::into;
        let into_e = <E as Into<Action>>::into;
        v.push(into_a(a));
        v.push(into_b(b));
        v.push(into_c(c));
        v.push(into_d(d));
        v.push(into_e(e));
        v
    }
}

impl<Action, A: Into<Action>, B: Into<Action>, C: Into<Action>, D: Into<Action>, E: Into<Action>, F: Into<Action>> SetReturn<Action> for (A, B, C, D, E, F) {
    open spec fn conversions_specified(&self) -> bool {
        <A as IntoSpec<Action>>::obeys_into_spec()
            && <B as IntoSpec<Action>>::obeys_into_spec()
            && <C as IntoSpec<Action>>::obeys_into_spec()
            && <D as IntoSpec<Action>>::obeys_into_spec()
            && <E as IntoSpec<Action>>::obeys_into_spec()
            && <F as IntoSpec<Action>>::obeys_into_spec()
    }

    open spec fn actions(self) -> Seq<Action> {
        seq![self.0.into_spec(), self.1.into_spec(), self.2.into_spec(), self.3.into_spec(), self.4.into_spec(), self.5.into_spec()]
    }

    open spec fn action_count(&self) -> nat {
        6
    }

    open spec fn converted_in_order(self, actions: Seq<Action>) -> bool {
        &&& actions.len() == 6
        &&& call_ensures(<A as Into<Action>>::into, (self.0,), actions[0])
        &&& call_ensures(<B as Into<Action>>::into, (self.1,), actions[1])
        &&& call_ensures(<C as Into<Action>>::into, (self.2,), actions[2])
        &&& call_ensures(<D as Into<Action>>::into, (self.3,), actions[3])
        &&& call_ensures(<E as Into<Action>>::into, (self.4,), actions[4])
        &&& call_ensures(<F as Into<Action>>::into, (self.5,), actions[5])
    }

    fn convert(self) -> (r: Vec<Action>) {
        let (a, b, c, d, e, f) = self;
        let mut v: Vec<Action> = Vec::new();
        let into_a = <A as Into<Action>>::into;
        let into_b = <B as Into<Action>>::into;
        let into_c = <C as Into<Action>>::into;
        let into_d = <D as Into<Action>>::into;
        let into_e = <E as Into<Action>>::into;
        let into_f = <F as Into<Action>>::into;
        v.push(into_a(a));
        v.push(into_b(b));
        v.push(into_c(c));
        v.push(into_d(d));
        v.push(into_e(e));
        v.push(into_f(f));
        v
    }
}

impl<Action, A: Into<Action>, B: Into<Action>, C: Into<Action>, D: Into<Action>, E: Into<Action>, F: Into<Action>, G: Into<Action>> SetReturn<Action> for (A, B, C, D, E, F, G) {
    open spec fn conversions_specified(&self) -> bool {
        <A as IntoSpec<Action>>::obeys_into_spec()
            && <B as IntoSpec<Action>>::obeys_into_spec()
            && <C as IntoSpec<Action>>::obeys_into_spec()
            && <D as IntoSpec<Action>>::obeys_into_spec()
            && <E as IntoSpec<Action>>::obeys_into_spec()
            && <F as IntoSpec<Action>>::obeys_into_spec()
            && <G as IntoSpec<Action>>::obeys_into_spec()
    }

    open spec fn actions(self) -> Seq<Action> {
        seq![self.0.into_spec(), self.1.into_spec(), self.2.into_spec(), self.3.into_spec(), self.4.into_spec(), self.5.into_spec(), self.6.into_spec()]
    }

    open spec fn action_count(&self) -> nat {
        7
    }

    open spec fn converted_in_order(self, actions: Seq<Action>) -> bool {
        &&& actions.len() == 7
        &&& call_ensures(<A as Into<Action>>::into, (self.0,), actions[0])
        &&& call_ensures(<B as Into<Action>>::into, (self.1,), actions[1])
        &&& call_ensures(<C as Into<Action>>::into, (self.2,), actions[2])
        &&& call_ensures(<D as Into<Action>>::into, (self.3,), actions[3])
        &&& call_ensures(<E as Into<Action>>::into, (self.4,), actions[4])
        &&& call_ensures(<F as Into<Action>>::into, (self.5,), actions[5])
        &&& call_ensures(<G as Into<Action>>::into, (self.6,), actions[6])
    }

    fn convert(self) -> (r: Vec<Action>) {
        let (a, b, c, d, e, f, g) = self;
        let mut v: Vec<Action> = Vec::new();
        let into_a = <A as Into<Action>>::into;
        let into_b = <B as Into<Action>>::into;
        let into_c = <C as Into<Action>>::into;
        let into_d = <D as Into<Action>>::into;
        let into_e = <E as Into<Action>>::into;
        let into_f = <F as Into<Action>>::into;
        let into_g = <G as Into<Action>>::into;
        v.push(into_a(a));
        v.push(into_b(b));
        v.push(into_c(c));
        v.push(into_d(d));
        v.push(into_e(e));
        v.push(into_f(f));
        v.push(into_g(g));
        v
    }
}

impl<Action, A: Into<Action>, B: Into<Action>, C: Into<Action>, D: Into<Action>, E: Into<Action>, F: Into<Action>, G: Into<Action>, H: Into<Action>> SetReturn<Action> for (A, B, C, D, E, F, G, H) {
    open spec fn conversions_specified(&self) -> bool {
        <A as IntoSpec<Action>>::obeys_into_spec()
            && <B as IntoSpec<Action>>::obeys_into_spec()
            && <C as IntoSpec<Action>>::obeys_into_spec()
            && <D as IntoSpec<Action>>::obeys_into_spec()
            && <E as IntoSpec<Action>>::obeys_into_spec()
            && <F as IntoSpec<Action>>::obeys_into_spec()
            && <G as IntoSpec<Action>>::obeys_into_spec()
            && <H as IntoSpec<Action>>::obeys_into_spec()
    }

    open spec fn actions(self) -> Seq<Action> {
        seq![self.0.into_spec(), self.1.into_spec(), self.2.into_spec(), self.3.into_spec(), self.4.into_spec(), self.5.into_spec(), self.6.into_spec(), self.7.into_spec()]
    }

    open spec fn action_count(&self) -> nat {
        8
    }

    open spec fn converted_in_order(self, actions: Seq<Action>) -> bool {
        &&& actions.len() == 8
        &&& call_ensures(<A as Into<Action>>::into, (self.0,), actions[0])
        &&& call_ensures(<B as Into<Action>>::into, (self.1,), actions[1])
        &&& call_ensures(<C as Into<Action>>::into, (self.2,), actions[2])
        &&& call_ensures(<D as Into<Action>>::into, (self.3,), actions[3])
        &&& call_ensures(<E as Into<Action>>::into, (self.4,), actions[4])
        &&& call_ensures(<F as Into<Action>>::into, (self.5,), actions[5])
        &&& call_ensures(<G as Into<Action>>::into, (self.6,), actions[6])
        &&& call_ensures(<H as Into<Action>>::into, (self.7,), actions[7])
    }

    fn convert(self) -> (r: Vec<Action>) {
        let (a, b, c, d, e, f, g, h) = self;
        let mut v: Vec<Action> = Vec::new();
        let into_a = <A as Into<Action>>::into;
        let into_b = <B as Into<Action>>::into;
        let into_c = <C as Into<Action>>::into;
        let into_d = <D as Into<Action>>::into;
        let into_e = <E as Into<Action>>::into;
        let into_f = <F as Into<Action>>::into;
        let into_g = <G as Into<Action>>::into;
        let into_h = <H as Into<Action>>::into;
        v.push(into_a(a));
        v.push(into_b(b));
        v.push(into_c(c));
        v.push(into_d(d));
        v.push(into_e(e));
        v.push(into_f(f));
        v.push(into_g(g));
        v.push(into_h(h));
        v
    }
}

impl<Action, A: Into<Action>, B: Into<Action>, C: Into<Action>, D: Into<Action>, E: Into<Action>, F: Into<Action>, G: Into<Action>, H: Into<Action>, I: Into<Action>> SetReturn<Action> for (A, B, C, D, E, F, G, H, I) {
    open spec fn conversions_specified(&self) -> bool {
        <A as IntoSpec<Action>>::obeys_into_spec()
            && <B as IntoSpec<Action>>::obeys_into_spec()
            && <C as IntoSpec<Action>>::obeys_into_spec()
            && <D as IntoSpec<Action>>::obeys_into_spec()
            && <E as IntoSpec<Action>>::obeys_into_spec()
            && <F as IntoSpec<Action>>::obeys_into_spec()
            && <G as IntoSpec<Action>>::obeys_into_spec()
            && <H as IntoSpec<Action>>::obeys_into_spec()
            && <I as IntoSpec<Action>>::obeys_into_spec()
    }

    open spec fn actions(self) -> Seq<Action> {
        seq![self.0.into_spec(), self.1.into_spec(), self.2.into_spec(), self.3.into_spec(), self.4.into_spec(), self.5.into_spec(), self.6.into_spec(), self.7.into_spec(), self.8.into_spec()]
    }

    open spec fn action_count(&self) -> nat {
        9
    }

    open spec fn converted_in_order(self, actions: Seq<Action>) -> bool {
        &&& actions.len() == 9
        &&& call_ensures(<A as Into<Action>>::into, (self.0,), actions[0])
        &&& call_ensures(<B as Into<Action>>::into, (self.1,), actions[1])
        &&& call_ensures(<C as Into<Action>>::into, (self.2,), actions[2])
        &&& call_ensures(<D as Into<Action>>::into, (self.3,), actions[3])
        &&& call_ensures(<E as Into<Action>>::into, (self.4,), actions[4])
        &&& call_ensures(<F as Into<Action>>::into, (self.5,), actions[5])
        &&& call_ensures(<G as Into<Action>>::into, (self.6,), actions[6])
        &&& call_ensures(<H as Into<Action>>::into, (self.7,), actions[7])
        &&& call_ensures(<I as Into<Action>>::into, (self.8,), actions[8])
    }

    fn convert(self) -> (r: Vec<Action>) {
        let (a, b, c, d, e, f, g, h, i) = self;
        let mut v: Vec<Action> = Vec::new();
        let into_a = <A as Into<Action>>::into;
        let into_b = <B as Into<Action>>::into;
        let into_c = <C as Into<Action>>::into;
        let into_d = <D as Into<Action>>::into;
        let into_e = <E as Into<Action>>::into;
        let into_f = <F as Into<Action>>::into;
        let into_g = <G as Into<Action>>::into;
        let into_h = <H as Into<Action>>::into;
        let into_i = <I as Into<Action>>::into;
        v.push(into_a(a));
        v.push(into_b(b));
        v.push(into_c(c));
        v.push(into_d(d));
        v.push(into_e(e));
        v.push(into_f(f));
        v.push(into_g(g));
        v.push(into_h(h));
        v.push(into_i(i));
        v
    }
}

impl<Action, A: Into<Action>, B: Into<Action>, C: Into<Action>, D: Into<Action>, E: Into<Action>, F: Into<Action>, G: Into<Action>, H: Into<Action>, I: Into<Action>, J: Into<Action>> SetReturn<Action> for (A, B, C, D, E, F, G, H, I, J) {
    open spec fn conversions_specified(&self) -> bool {
        <A as IntoSpec<Action>>::obeys_into_spec()
            && <B as IntoSpec<Action>>::obeys_into_spec()
            && <C as IntoSpec<Action>>::obeys_into_spec()
            && <D as IntoSpec<Action>>::obeys_into_spec()
            && <E as IntoSpec<Action>>::obeys_into_spec()
            && <F as IntoSpec<Action>>::obeys_into_spec()
            && <G as IntoSpec<Action>>::obeys_into_spec()
            && <H as IntoSpec<Action>>::obeys_into_spec()
            && <I as IntoSpec<Action>>::obeys_into_spec()
            && <J as IntoSpec<Action>>::obeys_into_spec()
    }

    open spec fn actions(self) -> Seq<Action> {
        seq![self.0.into_spec(), self.1.into_spec(), self.2.into_spec(), self.3.into_spec(), self.4.into_spec(), self.5.into_spec(), self.6.into_spec(), self.7.into_spec(), self.8.into_spec(), self.9.into_spec()]
    }

    open spec fn action_count(&self) -> nat {
        10
    }

    open spec fn converted_in_order(self, actions: Seq<Action>) -> bool {
        &&& actions.len() == 10
        &&& call_ensures(<A as Into<Action>>::into, (self.0,), actions[0])
        &&& call_ensures(<B as Into<Action>>::into, (self.1,), actions[1])
        &&& call_ensures(<C as Into<Action>>::into, (self.2,), actions[2])
        &&& call_ensures(<D as Into<Action>>::into, (self.3,), actions[3])
        &&& call_ensures(<E as Into<Action>>::into, (self.4,), actions[4])
        &&& call_ensures(<F as Into<Action>>::into, (self.5,), actions[5])
        &&& call_ensures(<G as Into<Action>>::into, (self.6,), actions[6])
        &&& call_ensures(<H as Into<Action>>::into, (self.7,), actions[7])
        &&& call_ensures(<I as Into<Action>>::into, (self.8,), actions[8])
        &&& call_ensures(<J as Into<Action>>::into, (self.9,), actions[9])
    }

    fn convert(self) -> (r: Vec<Action>) {
        let (a, b, c, d, e, f, g, h, i, j) = self;
        let mut v: Vec<Action> = Vec::new();
        let into_a = <A as Into<Action>>::into;
        let into_b = <B as Into<Action>>::into;
        let into_c = <C as Into<Action>>::into;
        let into_d = <D as Into<Action>>::into;
        let into_e = <E as Into<Action>>::into;
        let into_f = <F as Into<Action>>::into;
        let into_g = <G as Into<Action>>::into;
        let into_h = <H as Into<Action>>::into;
        let into_i = <I as Into<Action>>::into;
        let into_j = <J as Into<Action>>::into;
        v.push(into_a(a));
        v.push(into_b(b));
        v.push(into_c(c));
        v.push(into_d(d));
        v.push(into_e(e));
        v.push(into_f(f));
        v.push(into_g(g));
        v.push(into_h(h));
        v.push(into_i(i));
        v.push(into_j(j));
        v
    }
}

impl<Action, A: Into<Action>, B: Into<Action>, C: Into<Action>, D: Into<Action>, E: Into<Action>, F: Into<Action>, G: Into<Action>, H: Into<Action>, I: Into<Action>, J: Into<Action>, K: Into<Action>> SetReturn<Action> for (A, B, C, D, E, F, G, H, I, J, K) {
    open spec fn conversions_specified(&self) -> bool {
        <A as IntoSpec<Action>>::obeys_into_spec()
            && <B as IntoSpec<Action>>::obeys_into_spec()
            && <C as IntoSpec<Action>>::obeys_into_spec()
            && <D as IntoSpec<Action>>::obeys_into_spec()
            && <E as IntoSpec<Action>>::obeys_into_spec()
            && <F as IntoSpec<Action>>::obeys_into_spec()
            && <G as IntoSpec<Action>>::obeys_into_spec()
            && <H as IntoSpec<Action>>::obeys_into_spec()
            && <I as IntoSpec<Action>>::obeys_into_spec()
            && <J as IntoSpec<Action>>::obeys_into_spec()
            && <K as IntoSpec<Action>>::obeys_into_spec()
    }

    open spec fn actions(self) -> Seq<Action> {
        seq![self.0.into_spec(), self.1.into_spec(), self.2.into_spec(), self.3.into_spec(), self.4.into_spec(), self.5.into_spec(), self.6.into_spec(), self.7.into_spec(), self.8.into_spec(), self.9.into_spec(), self.10.into_spec()]
    }

    open spec fn action_count(&self) -> nat {
        11
    }

    open spec fn converted_in_order(self, actions: Seq<Action>) -> bool {
        &&& actions.len() == 11
        &&& call_ensures(<A as Into<Action>>::into, (self.0,), actions[0])
        &&& call_ensures(<B as Into<Action>>::into, (self.1,), actions[1])
        &&& call_ensures(<C as Into<Action>>::into, (self.2,), actions[2])
        &&& call_ensures(<D as Into<Action>>::into, (self.3,), actions[3])
        &&& call_ensures(<E as Into<Action>>::into, (self.4,), actions[4])
        &&& call_ensures(<F as Into<Action>>::into, (self.5,), actions[5])
        &&& call_ensures(<G as Into<Action>>::into, (self.6,), actions[6])
        &&& call_ensures(<H as Into<Action>>::into, (self.7,), actions[7])
        &&& call_ensures(<I as Into<Action>>::into, (self.8,), actions[8])
        &&& call_ensures(<J as Into<Action>>::into, (self.9,), actions[9])
        &&& call_ensures(<K as Into<Action>>::into, (self.10,), actions[10])
    }

    fn convert(self) -> (r: Vec<Action>) {
        let (a, b, c, d, e, f, g, h, i, j, k) = self;
        let mut v: Vec<Action> = Vec::new();
        let into_a = <A as Into<Action>>::into;
        let into_b = <B as Into<Action>>::into;
        let into_c = <C as Into<Action>>::into;
        let into_d = <D as Into<Action>>::into;
        let into_e = <E as Into<Action>>::into;
        let into_f = <F as Into<Action>>::into;
        let into_g = <G as Into<Action>>::into;
        let into_h = <H as Into<Action>>::into;
        let into_i = <I as Into<Action>>::into;
        let into_j = <J as Into<Action>>::into;
        let into_k = <K as Into<Action>>::into;
        v.push(into_a(a));
        v.push(into_b(b));
        v.push(into_c(c));
        v.push(into_d(d));
        v.push(into_e(e));
        v.push(into_f(f));
        v.push(into_g(g));
        v.push(into_h(h));
        v.push(into_i(i));
        v.push(into_j(j));
        v.push(into_k(k));
        v
    }
}

impl<Action, A: Into<Action>, B: Into<Action>, C: Into<Action>, D: Into<Action>, E: Into<Action>, F: Into<Action>, G: Into<Action>, H: Into<Action>, I: Into<Action>, J: Into<Action>, K: Into<Action>, L: Into<Action>> SetReturn<Action> for (A, B, C, D, E, F, G, H, I, J, K, L) {
    open spec fn conversions_specified(&self) -> bool {
        <A as IntoSpec<Action>>::obeys_into_spec()
            && <B as IntoSpec<Action>>::obeys_into_spec()
            && <C as IntoSpec<Action>>::obeys_into_spec()
            && <D as IntoSpec<Action>>::obeys_into_spec()
            && <E as IntoSpec<Action>>::obeys_into_spec()
            && <F as IntoSpec<Action>>::obeys_into_spec()
            && <G as IntoSpec<Action>>::obeys_into_spec()
            && <H as IntoSpec<Action>>::obeys_into_spec()
            && <I as IntoSpec<Action>>::obeys_into_spec()
            && <J as IntoSpec<Action>>::obeys_into_spec()
            && <K as IntoSpec<Action>>::obeys_into_spec()
            && <L as IntoSpec<Action>>::obeys_into_spec()
    }

    open spec fn actions(self) -> Seq<Action> {
        seq![self.0.into_spec(), self.1.into_spec(), self.2.into_spec(), self.3.into_spec(), self.4.into_spec(), self.5.into_spec(), self.6.into_spec(), self.7.into_spec(), self.8.into_spec(), self.9.into_spec(), self.10.into_spec(), self.11.into_spec()]
    }

    open spec fn action_count(&self) -> nat {
        12
    }

    open spec fn converted_in_order(self, actions: Seq<Action>) -> bool {
        &&& actions.len() == 12
        &&& call_ensures(<A as Into<Action>>::into, (self.0,), actions[0])
        &&& call_ensures(<B as Into<Action>>::into, (self.1,), actions[1])
        &&& call_ensures(<C as Into<Action>>::into, (self.2,), actions[2])
        &&& call_ensures(<D as Into<Action>>::into, (self.3,), actions[3])
        &&& call_ensures(<E as Into<Action>>::into, (self.4,), actions[4])
        &&& call_ensures(<F as Into<Action>>::into, (self.5,), actions[5])
        &&& call_ensures(<G as Into<Action>>::into, (self.6,), actions[6])
        &&& call_ensures(<H as Into<Action>>::into, (self.7,), actions[7])
        &&& call_ensures(<I as Into<Action>>::into, (self.8,), actions[8])
        &&& call_ensures(<J as Into<Action>>::into, (self.9,), actions[9])
        &&& call_ensures(<K as Into<Action>>::into, (self.10,), actions[10])
        &&& call_ensures(<L as Into<Action>>::into, (self.11,), actions[11])
    }

    fn convert(self) -> (r: Vec<Action>) {
        let (a, b, c, d, e, f, g, h, i, j, k, l) = self;
        let mut v: Vec<Action> = Vec::new();
        let into_a = <A as Into<Action>>::into;
        let into_b = <B as Into<Action>>::into;
        let into_c = <C as Into<Action>>::into;
        let into_d = <D as Into<Action>>::into;
        let into_e = <E as Into<Action>>::into;
        let into_f = <F as Into<Action>>::into;
        let into_g = <G as Into<Action>>::into;
        let into_h = <H as Into<Action>>::into;
        let into_i = <I as Into<Action>>::into;
        let into_j = <J as Into<Action>>::into;
        let into_k = <K as Into<Action>>::into;
        let into_l = <L as Into<Action>>::into;
        v.push(into_a(a));
        v.push(into_b(b));
        v.push(into_c(c));
        v.push(into_d(d));
        v.push(into_e(e));
        v.push(into_f(f));
        v.push(into_g(g));
        v.push(into_h(h));
        v.push(into_i(i));
        v.push(into_j(j));
        v.push(into_k(k));
        v.push(into_l(l));
        v
    }
}

impl<Action, A: Into<Action>, B: Into<Action>, C: Into<Action>, D: Into<Action>, E: Into<Action>, F: Into<Action>, G: Into<Action>, H: Into<Action>, I: Into<Action>, J: Into<Action>, K: Into<Action>, L: Into<Action>, M: Into<Action>> SetReturn<Action> for (A, B, C, D, E, F, G, H, I, J, K, L, M) {
    open spec fn conversions_specified(&self) -> bool {
        <A as IntoSpec<Action>>::obeys_into_spec()
            && <B as IntoSpec<Action>>::obeys_into_spec()
            && <C as IntoSpec<Action>>::obeys_into_spec()
            && <D as IntoSpec<Action>>::obeys_into_spec()
            && <E as IntoSpec<Action>>::obeys_into_spec()
            && <F as IntoSpec<Action>>::obeys_into_spec()
            && <G as IntoSpec<Action>>::obeys_into_spec()
            && <H as IntoSpec<Action>>::obeys_into_spec()
            && <I as IntoSpec<Action>>::obeys_into_spec()
            && <J as IntoSpec<Action>>::obeys_into_spec()
            && <K as IntoSpec<Action>>::obeys_into_spec()
            && <L as IntoSpec<Action>>::obeys_into_spec()
            && <M as IntoSpec<Action>>::obeys_into_spec()
    }

    open spec fn actions(self) -> Seq<Action> {
        seq![self.0.into_spec(), self.1.into_spec(), self.2.into_spec(), self.3.into_spec(), self.4.into_spec(), self.5.into_spec(), self.6.into_spec(), self.7.into_spec(), self.8.into_spec(), self.9.into_spec(), self.10.into_spec(), self.11.into_spec(), self.12.into_spec()]
    }

    open spec fn action_count(&self) -> nat {
        13
    }

    open spec fn converted_in_order(self, actions: Seq<Action>) -> bool {
        &&& actions.len() == 13
        &&& call_ensures(<A as Into<Action>>::into, (self.0,), actions[0])
        &&& call_ensures(<B as Into<Action>>::into, (self.1,), actions[1])
        &&& call_ensures(<C as Into<Action>>::into, (self.2,), actions[2])
        &&& call_ensures(<D as Into<Action>>::into, (self.3,), actions[3])
        &&& call_ensures(<E as Into<Action>>::into, (self.4,), actions[4])
        &&& call_ensures(<F as Into<Action>>::into, (self.5,), actions[5])
        &&& call_ensures(<G as Into<Action>>::into, (self.6,), actions[6])
        &&& call_ensures(<H as Into<Action>>::into, (self.7,), actions[7])
        &&& call_ensures(<I as Into<Action>>::into, (self.8,), actions[8])
        &&& call_ensures(<J as Into<Action>>::into, (self.9,), actions[9])
        &&& call_ensures(<K as Into<Action>>::into, (self.10,), actions[10])
        &&& call_ensures(<L as Into<Action>>::into, (self.11,), actions[11])
        &&& call_ensures(<M as Into<Action>>::into, (self.12,), actions[12])
    }

    fn convert(self) -> (r: Vec<Action>) {
        let (a, b, c, d, e, f, g, h, i, j, k, l, m) = self;
        let mut v: Vec<Action> = Vec::new();
        let into_a = <A as Into<Action>>::into;
        let into_b = <B as Into<Action>>::into;
        let into_c = <C as Into<Action>>::into;
        let into_d = <D as Into<Action>>::into;
        let into_e = <E as Into<Action>>::into;
        let into_f = <F as Into<Action>>::into;
        let into_g = <G as Into<Action>>::into;
        let into_h = <H as Into<Action>>::into;
        let into_i = <I as Into<Action>>::into;
        let into_j = <J as Into<Action>>::into;
        let into_k = <K as Into<Action>>::into;
        let into_l = <L as Into<Action>>::into;
        let into_m = <M as Into<Action>>::into;
        v.push(into_a(a));
        v.push(into_b(b));
        v.push(into_c(c));
        v.push(into_d(d));
        v.push(into_e(e));
        v.push(into_f(f));
        v.push(into_g(g));
        v.push(into_h(h));
        v.push(into_i(i));
        v.push(into_j(j));
        v.push(into_k(k));
        v.push(into_l(l));
        v.push(into_m(m));
        v
    }
}

impl<Action, A: Into<Action>, B: Into<Action>, C: Into<Action>, D: Into<Action>, E: Into<Action>, F: Into<Action>, G: Into<Action>, H: Into<Action>, I: Into<Action>, J: Into<Action>, K: Into<Action>, L: Into<Action>, M: Into<Action>, N: Into<Action>> SetReturn<Action> for (A, B, C, D, E, F, G, H, I, J, K, L, M, N) {
    open spec fn conversions_specified(&self) -> bool {
        <A as IntoSpec<Action>>::obeys_into_spec()
            && <B as IntoSpec<Action>>::obeys_into_spec()
            && <C as IntoSpec<Action>>::obeys_into_spec()
            && <D as IntoSpec<Action>>::obeys_into_spec()
            && <E as IntoSpec<Action>>::obeys_into_spec()
            && <F as IntoSpec<Action>>::obeys_into_spec()
            && <G as IntoSpec<Action>>::obeys_into_spec()
            && <H as IntoSpec<Action>>::obeys_into_spec()
            && <I as IntoSpec<Action>>::obeys_into_spec()
            && <J as IntoSpec<Action>>::obeys_into_spec()
            && <K as IntoSpec<Action>>::obeys_into_spec()
            && <L as IntoSpec<Action>>::obeys_into_spec()
            && <M as IntoSpec<Action>>::obeys_into_spec()
            && <N as IntoSpec<Action>>::obeys_into_spec()
    }

    open spec fn actions(self) -> Seq<Action> {
        seq![self.0.into_spec(), self.1.into_spec(), self.2.into_spec(), self.3.into_spec(), self.4.into_spec(), self.5.into_spec(), self.6.into_spec(), self.7.into_spec(), self.8.into_spec(), self.9.into_spec(), self.10.into_spec(), self.11.into_spec(), self.12.into_spec(), self.13.into_spec()]
    }

    open spec fn action_count(&self) -> nat {
        14
    }

    open spec fn converted_in_order(self, actions: Seq<Action>) -> bool {
        &&& actions.len() == 14
        &&& call_ensures(<A as Into<Action>>::into, (self.0,), actions[0])
        &&& call_ensures(<B as Into<Action>>::into, (self.1,), actions[1])
        &&& call_ensures(<C as Into<Action>>::into, (self.2,), actions[2])
        &&& call_ensures(<D as Into<Action>>::into, (self.3,), actions[3])
        &&& call_ensures(<E as Into<Action>>::into, (self.4,), actions[4])
        &&& call_ensures(<F as Into<Action>>::into, (self.5,), actions[5])
        &&& call_ensures(<G as Into<Action>>::into, (self.6,), actions[6])
        &&& call_ensures(<H as Into<Action>>::into, (self.7,), actions[7])
        &&& call_ensures(<I as Into<Action>>::into, (self.8,), actions[8])
        &&& call_ensures(<J as Into<Action>>::into, (self.9,), actions[9])
        &&& call_ensures(<K as Into<Action>>::into, (self.10,), actions[10])
        &&& call_ensures(<L as Into<Action>>::into, (self.11,), actions[11])
        &&& call_ensures(<M as Into<Action>>::into, (self.12,), actions[12])
        &&& call_ensures(<N as Into<Action>>::into, (self.13,), actions[13])
    }

    fn convert(self) -> (r: Vec<Action>) {
        let (a, b, c, d, e, f, g, h, i, j, k, l, m, n) = self;
        let mut v: Vec<Action> = Vec::new();
        let into_a = <A as Into<Action>>::into;
        let into_b = <B as Into<Action>>::into;
        let into_c = <C as Into<Action>>::into;
        let into_d = <D as Into<Action>>::into;
        let into_e = <E as Into<Action>>::into;
        let into_f = <F as Into<Action>>::into;
        let into_g = <G as Into<Action>>::into;
        let into_h = <H as Into<Action>>::into;
        let into_i = <I as Into<Action>>::into;
        let into_j = <J as Into<Action>>::into;
        let into_k = <K as Into<Action>>::into;
        let into_l = <L as Into<Action>>::into;
        let into_m = <M as Into<Action>>::into;
        let into_n = <N as Into<Action>>::into;
        v.push(into_a(a));
        v.push(into_b(b));
        v.push(into_c(c));
        v.push(into_d(d));
        v.push(into_e(e));
        v.push(into_f(f));
        v.push(into_g(g));
        v.push(into_h(h));
        v.push(into_i(i));
        v.push(into_j(j));
        v.push(into_k(k));
        v.push(into_l(l));
        v.push(into_m(m));
        v.push(into_n(n));
        v
    }
}

impl<Action, A: Into<Action>, B: Into<Action>, C: Into<Action>, D: Into<Action>, E: Into<Action>, F: Into<Action>, G: Into<Action>, H: Into<Action>, I: Into<Action>, J: Into<Action>, K: Into<Action>, L: Into<Action>, M: Into<Action>, N: Into<Action>, O: Into<Action>> SetReturn<Action> for (A, B, C, D, E, F, G, H, I, J, K, L, M, N, O) {
    open spec fn conversions_specified(&self) -> bool {
        <A as IntoSpec<Action>>::obeys_into_spec()
            && <B as IntoSpec<Action>>::obeys_into_spec()
            && <C as IntoSpec<Action>>::obeys_into_spec()
            && <D as IntoSpec<Action>>::obeys_into_spec()
            && <E as IntoSpec<Action>>::obeys_into_spec()
            && <F as IntoSpec<Action>>::obeys_into_spec()
            && <G as IntoSpec<Action>>::obeys_into_spec()
            && <H as IntoSpec<Action>>::obeys_into_spec()
            && <I as IntoSpec<Action>>::obeys_into_spec()
            && <J as IntoSpec<Action>>::obeys_into_spec()
            && <K as IntoSpec<Action>>::obeys_into_spec()
            && <L as IntoSpec<Action>>::obeys_into_spec()
            && <M as IntoSpec<Action>>::obeys_into_spec()
            && <N as IntoSpec<Action>>::obeys_into_spec()
            && <O as IntoSpec<Action>>::obeys_into_spec()
    }

    open spec fn actions(self) -> Seq<Action> {
        seq![self.0.into_spec(), self.1.into_spec(), self.2.into_spec(), self.3.into_spec(), self.4.into_spec(), self.5.into_spec(), self.6.into_spec(), self.7.into_spec(), self.8.into_spec(), self.9.into_spec(), self.10.into_spec(), self.11.into_spec(), self.12.into_spec(), self.13.into_spec(), self.14.into_spec()]
    }

    open spec fn action_count(&self) -> nat {
        15
    }

    open spec fn converted_in_order(self, actions: Seq<Action>) -> bool {
        &&& actions.len() == 15
        &&& call_ensures(<A as Into<Action>>::into, (self.0,), actions[0])
        &&& call_ensures(<B as Into<Action>>::into, (self.1,), actions[1])
        &&& call_ensures(<C as Into<Action>>::into, (self.2,), actions[2])
        &&& call_ensures(<D as Into<Action>>::into, (self.3,), actions[3])
        &&& call_ensures(<E as Into<Action>>::into, (self.4,), actions[4])
        &&& call_ensures(<F as Into<Action>>::into, (self.5,), actions[5])
        &&& call_ensures(<G as Into<Action>>::into, (self.6,), actions[6])
        &&& call_ensures(<H as Into<Action>>::into, (self.7,), actions[7])
        &&& call_ensures(<I as Into<Action>>::into, (self.8,), actions[8])
        &&& call_ensures(<J as Into<Action>>::into, (self.9,), actions[9])
        &&& call_ensures(<K as Into<Action>>::into, (self.10,), actions[10])
        &&& call_ensures(<L as Into<Action>>::into, (self.11,), actions[11])
        &&& call_ensures(<M as Into<Action>>::into, (self.12,), actions[12])
        &&& call_ensures(<N as Into<Action>>::into, (self.13,), actions[13])
        &&& call_ensures(<O as Into<Action>>::into, (self.14,), actions[14])
    }

    fn convert(self) -> (r: Vec<Action>) {
        let (a, b, c, d, e, f, g, h, i, j, k, l, m, n, o) = self;
        let mut v: Vec<Action> = Vec::new();
        let into_a = <A as Into<Action>>::into;
        let into_b = <B as Into<Action>>::into;
        let into_c = <C as Into<Action>>::into;
        let into_d = <D as Into<Action>>::into;
        let into_e = <E as Into<Action>>::into;
        let into_f = <F as Into<Action>>::into;
        let into_g = <G as Into<Action>>::into;
        let into_h = <H as Into<Action>>::into;
        let into_i = <I as Into<Action>>::into;
        let into_j = <J as Into<Action>>::into;
        let into_k = <K as Into<Action>>::into;
        let into_l = <L as Into<Action>>::into;
        let into_m = <M as Into<Action>>::into;
        let into_n = <N as Into<Action>>::into;
        let into_o = <O as Into<Action>>::into;
        v.push(into_a(a));
        v.push(into_b(b));
        v.push(into_c(c));
        v.push(into_d(d));
        v.push(into_e(e));
        v.push(into_f(f));
        v.push(into_g(g));
        v.push(into_h(h));
        v.push(into_i(i));
        v.push(into_j(j));
        v.push(into_k(k));
        v.push(into_l(l));
        v.push(into_m(m));
        v.push(into_n(n));
        v.push(into_o(o));
        v
    }
}

impl<Action, A: Into<Action>, B: Into<Action>, C: Into<Action>, D: Into<Action>, E: Into<Action>, F: Into<Action>, G: Into<Action>, H: Into<Action>, I: Into<Action>, J: Into<Action>, K: Into<Action>, L: Into<Action>, M: Into<Action>, N: Into<Action>, O: Into<Action>, P: Into<Action>> SetReturn<Action> for (A, B, C, D, E, F, G, H, I, J, K, L, M, N, O, P) {
    open spec fn conversions_specified(&self) -> bool {
        <A as IntoSpec<Action>>::obeys_into_spec()
            && <B as IntoSpec<Action>>::obeys_into_spec()
            && <C as IntoSpec<Action>>::obeys_into_spec()
            && <D as IntoSpec<Action>>::obeys_into_spec()
            && <E as IntoSpec<Action>>::obeys_into_spec()
            && <F as IntoSpec<Action>>::obeys_into_spec()
            && <G as IntoSpec<Action>>::obeys_into_spec()
            && <H as IntoSpec<Action>>::obeys_into_spec()
            && <I as IntoSpec<Action>>::obeys_into_spec()
            && <J as IntoSpec<Action>>::obeys_into_spec()
            && <K as IntoSpec<Action>>::obeys_into_spec()
            && <L as IntoSpec<Action>>::obeys_into_spec()
            && <M as IntoSpec<Action>>::obeys_into_spec()
            && <N as IntoSpec<Action>>::obeys_into_spec()
            && <O as IntoSpec<Action>>::obeys_into_spec()
            && <P as IntoSpec<Action>>::obeys_into_spec()
    }

    open spec fn actions(self) -> Seq<Action> {
        seq![self.0.into_spec(), self.1.into_spec(), self.2.into_spec(), self.3.into_spec(), self.4.into_spec(), self.5.into_spec(), self.6.into_spec(), self.7.into_spec(), self.8.into_spec(), self.9.into_spec(), self.10.into_spec(), self.11.into_spec(), self.12.into_spec(), self.13.into_spec(), self.14.into_spec(), self.15.into_spec()]
    }

    open spec fn action_count(&self) -> nat {
        16
    }

    open spec fn converted_in_order(self, actions: Seq<Action>) -> bool {
        &&& actions.len() == 16
        &&& call_ensures(<A as Into<Action>>::into, (self.0,), actions[0])
        &&& call_ensures(<B as Into<Action>>::into, (self.1,), actions[1])
        &&& call_ensures(<C as Into<Action>>::into, (self.2,), actions[2])
        &&& call_ensures(<D as Into<Action>>::into, (self.3,), actions[3])
        &&& call_ensures(<E as Into<Action>>::into, (self.4,), actions[4])
        &&& call_ensures(<F as Into<Action>>::into, (self.5,), actions[5])
        &&& call_ensures(<G as Into<Action>>::into, (self.6,), actions[6])
        &&& call_ensures(<H as Into<Action>>::into, (self.7,), actions[7])
        &&& call_ensures(<I as Into<Action>>::into, (self.8,), actions[8])
        &&& call_ensures(<J as Into<Action>>::into, (self.9,), actions[9])
        &&& call_ensures(<K as Into<Action>>::into, (self.10,), actions[10])
        &&& call_ensures(<L as Into<Action>>::into, (self.11,), actions[11])
        &&& call_ensures(<M as Into<Action>>::into, (self.12,), actions[12])
        &&& call_ensures(<N as Into<Action>>::into, (self.13,), actions[13])
        &&& call_ensures(<O as Into<Action>>::into, (self.14,), actions[14])
        &&& call_ensures(<P as Into<Action>>::into, (self.15,), actions[15])
    }

    fn convert(self) -> (r: Vec<Action>) {
        let (a, b, c, d, e, f, g, h, i, j, k, l, m, n, o, p) = self;
        let mut v: Vec<Action> = Vec::new();
        let into_a = <A as Into<Action>>::into;
        let into_b = <B as Into<Action>>::into;
        let into_c = <C as Into<Action>>::into;
        let into_d = <D as Into<Action>>::into;
        let into_e = <E as Into<Action>>::into;
        let into_f = <F as Into<Action>>::into;
        let into_g = <G as Into<Action>>::into;
        let into_h = <H as Into<Action>>::into;
        let into_i = <I as Into<Action>>::into;
        let into_j = <J as Into<Action>>::into;
        let into_k = <K as Into<Action>>::into;
        let into_l = <L as Into<Action>>::into;
        let into_m = <M as Into<Action>>::into;
        let into_n = <N as Into<Action>>::into;
        let into_o = <O as Into<Action>>::into;
        let into_p = <P as Into<Action>>::into;
        v.push(into_a(a));
        v.push(into_b(b));
        v.push(into_c(c));
        v.push(into_d(d));
        v.push(into_e(e));
        v.push(into_f(f));
        v.push(into_g(g));
        v.push(into_h(h));
        v.push(into_i(i));
        v.push(into_j(j));
        v.push(into_k(k));
        v.push(into_l(l));
        v.push(into_m(m));
        v.push(into_n(n));
        v.push(into_o(o));
        v.push(into_p(p));
        v
    }
}


/// A method's tuple of a value alone hands back the value and no actions.
pub proof fn lemma_method_return_actions_0<T, Action>(t: (T,), r: (T, Vec<Action>))
    requires
        call_ensures(<(T,) as MethodReturn<Action>>::convert, (t,), r),
    ensures
        r.0 == t.0,
        r.1@.len() == 0,
{
}

/// A method's tuple of a value and 1 action hands back the value and, index by
/// index, the conversion of each action element in tuple order.
pub proof fn lemma_method_return_actions_1<T, Action, A: Into<Action>>(t: (T, A), r: (T, Vec<Action>))
    requires
        call_ensures(<(T, A) as MethodReturn<Action>>::convert, (t,), r),
    ensures
        r.0 == t.0,
        r.1@.len() == 1,
        call_ensures(<A as Into<Action>>::into, (t.1,), r.1@[0]),
        <A as IntoSpec<Action>>::obeys_into_spec() ==> r.1@ == seq![t.1.into_spec()],
{
}

/// A method's tuple of a value and 2 actions hands back the value and, index by
/// index, the conversion of each action element in tuple order.
pub proof fn lemma_method_return_actions_2<T, Action, A: Into<Action>, B: Into<Action>>(t: (T, A, B), r: (T, Vec<Action>))
    requires
        call_ensures(<(T, A, B) as MethodReturn<Action>>::convert, (t,), r),
    ensures
        r.0 == t.0,
        r.1@.len() == 2,
        call_ensures(<A as Into<Action>>::into, (t.1,), r.1@[0]),
        call_ensures(<B as Into<Action>>::into, (t.2,), r.1@[1]),
        <A as IntoSpec<Action>>::obeys_into_spec() && <B as IntoSpec<Action>>::obeys_into_spec() ==> r.1@ == seq![t.1.into_spec(), t.2.into_spec()],
{
}

/// A method's tuple of a value and 3 actions hands back the value and, index by
/// index, the conversion of each action element in tuple order.
pub proof fn lemma_method_return_actions_3<T, Action, A: Into<Action>, B: Into<Action>, C: Into<Action>>(t: (T, A, B, C), r: (T, Vec<Action>))
    requires
        call_ensures(<(T, A, B, C) as MethodReturn<Action>>::convert, (t,), r),
    ensures
        r.0 == t.0,
        r.1@.len() == 3,
        call_ensures(<A as Into<Action>>::into, (t.1,), r.1@[0]),
        call_ensures(<B as Into<Action>>::into, (t.2,), r.1@[1]),
        call_ensures(<C as Into<Action>>::into, (t.3,), r.1@[2]),
        <A as IntoSpec<Action>>::obeys_into_spec() && <B as IntoSpec<Action>>::obeys_into_spec() && <C as IntoSpec<Action>>::obeys_into_spec() ==> r.1@ == seq![t.1.into_spec(), t.2.into_spec(), t.3.into_spec()],
{
}

/// A method's tuple of a value and 4 actions hands back the value and, index by
/// index, the conversion of each action element in tuple order.
pub proof fn lemma_method_return_actions_4<T, Action, A: Into<Action>, B: Into<Action>, C: Into<Action>, D: Into<Action>>(t: (T, A, B, C, D), r: (T, Vec<Action>))
    requires
        call_ensures(<(T, A, B, C, D) as MethodReturn<Action>>::convert, (t,), r),
    ensures
        r.0 == t.0,
        r.1@.len() == 4,
        call_ensures(<A as Into<Action>>::into, (t.1,), r.1@[0]),
        call_ensures(<B as Into<Action>>::into, (t.2,), r.1@[1]),
        call_ensures(<C as Into<Action>>::into, (t.3,), r.1@[2]),
        call_ensures(<D as Into<Action>>::into, (t.4,), r.1@[3]),
        <A as IntoSpec<Action>>::obeys_into_spec() && <B as IntoSpec<Action>>::obeys_into_spec() && <C as IntoSpec<Action>>::obeys_into_spec() && <D as IntoSpec<Action>>::obeys_into_spec() ==> r.1@ == seq![t.1.into_spec(), t.2.into_spec(), t.3.into_spec(), t.4.into_spec()],
{
}

/// A method's tuple of a value and 5 actions hands back the value and, index by
/// index, the conversion of each action element in tuple order.
pub proof fn lemma_method_return_actions_5<T, Action, A: Into<Action>, B: Into<Action>, C: Into<Action>, D: Into<Action>, E: Into<Action>>(t: (T, A, B, C, D, E), r: (T, Vec<Action>))
    requires
        call_ensures(<(T, A, B, C, D, E) as MethodReturn<Action>>::convert, (t,), r),
    ensures
        r.0 == t.0,
        r.1@.len() == 5,
        call_ensures(<A as Into<Action>>::into, (t.1,), r.1@[0]),
        call_ensures(<B as Into<Action>>::into, (t.2,), r.1@[1]),
        call_ensures(<C as Into<Action>>::into, (t.3,), r.1@[2]),
        call_ensures(<D as Into<Action>>::into, (t.4,), r.1@[3]),
        call_ensures(<E as Into<Action>>::into, (t.5,), r.1@[4]),
        <A as IntoSpec<Action>>::obeys_into_spec() && <B as IntoSpec<Action>>::obeys_into_spec() && <C as IntoSpec<Action>>::obeys_into_spec() && <D as IntoSpec<Action>>::obeys_into_spec() && <E as IntoSpec<Action>>::obeys_into_spec() ==> r.1@ == seq![t.1.into_spec(), t.2.into_spec(), t.3.into_spec(), t.4.into_spec(), t.5.into_spec()],
{
}

/// A method's tuple of a value and 6 actions hands back the value and, index by
/// index, the conversion of each action element in tuple order.
pub proof fn lemma_method_return_actions_6<T, Action, A: Into<Action>, B: Into<Action>, C: Into<Action>, D: Into<Action>, E: Into<Action>, F: Into<Action>>(t: (T, A, B, C, D, E, F), r: (T, Vec<Action>))
    requires
        call_ensures(<(T, A, B, C, D, E, F) as MethodReturn<Action>>::convert, (t,), r),
    ensures
        r.0 == t.0,
        r.1@.len() == 6,
        call_ensures(<A as Into<Action>>::into, (t.1,), r.1@[0]),
        call_ensures(<B as Into<Action>>::into, (t.2,), r.1@[1]),
        call_ensures(<C as Into<Action>>::into, (t.3,), r.1@[2]),
        call_ensures(<D as Into<Action>>::into, (t.4,), r.1@[3]),
        call_ensures(<E as Into<Action>>::into, (t.5,), r.1@[4]),
        call_ensures(<F as Into<Action>>::into, (t.6,), r.1@[5]),
        <A as IntoSpec<Action>>::obeys_into_spec() && <B as IntoSpec<Action>>::obeys_into_spec() && <C as IntoSpec<Action>>::obeys_into_spec() && <D as IntoSpec<Action>>::obeys_into_spec() && <E as IntoSpec<Action>>::obeys_into_spec() && <F as IntoSpec<Action>>::obeys_into_spec() ==> r.1@ == seq![t.1.into_spec(), t.2.into_spec(), t.3.into_spec(), t.4.into_spec(), t.5.into_spec(), t.6.into_spec()],
{
}

/// A method's tuple of a value and 7 actions hands back the value and, index by
/// index, the conversion of each action element in tuple order.
pub proof fn lemma_method_return_actions_7<T, Action, A: Into<Action>, B: Into<Action>, C: Into<Action>, D: Into<Action>, E: Into<Action>, F: Into<Action>, G: Into<Action>>(t: (T, A, B, C, D, E, F, G), r: (T, Vec<Action>))
    requires
        call_ensures(<(T, A, B, C, D, E, F, G) as MethodReturn<Action>>::convert, (t,), r),
    ensures
        r.0 == t.0,
        r.1@.len() == 7,
        call_ensures(<A as Into<Action>>::into, (t.1,), r.1@[0]),
        call_ensures(<B as Into<Action>>::into, (t.2,), r.1@[1]),
        call_ensures(<C as Into<Action>>::into, (t.3,), r.1@[2]),
        call_ensures(<D as Into<Action>>::into, (t.4,), r.1@[3]),
        call_ensures(<E as Into<Action>>::into, (t.5,), r.1@[4]),
        call_ensures(<F as Into<Action>>::into, (t.6,), r.1@[5]),
        call_ensures(<G as Into<Action>>::into, (t.7,), r.1@[6]),
        <A as IntoSpec<Action>>::obeys_into_spec() && <B as IntoSpec<Action>>::obeys_into_spec() && <C as IntoSpec<Action>>::obeys_into_spec() && <D as IntoSpec<Action>>::obeys_into_spec() && <E as IntoSpec<Action>>::obeys_into_spec() && <F as IntoSpec<Action>>::obeys_into_spec() && <G as IntoSpec<Action>>::obeys_into_spec() ==> r.1@ == seq![t.1.into_spec(), t.2.into_spec(), t.3.into_spec(), t.4.into_spec(), t.5.into_spec(), t.6.into_spec(), t.7.into_spec()],
{
}

/// A method's tuple of a value and 8 actions hands back the value and, index by
/// index, the conversion of each action element in tuple order.
pub proof fn lemma_method_return_actions_8<T, Action, A: Into<Action>, B: Into<Action>, C: Into<Action>, D: Into<Action>, E: Into<Action>, F: Into<Action>, G: Into<Action>, H: Into<Action>>(t: (T, A, B, C, D, E, F, G, H), r: (T, Vec<Action>))
    requires
        call_ensures(<(T, A, B, C, D, E, F, G, H) as MethodReturn<Action>>::convert, (t,), r),
    ensures
        r.0 == t.0,
        r.1@.len() == 8,
        call_ensures(<A as Into<Action>>::into, (t.1,), r.1@[0]),
        call_ensures(<B as Into<Action>>::into, (t.2,), r.1@[1]),
        call_ensures(<C as Into<Action>>::into, (t.3,), r.1@[2]),
        call_ensures(<D as Into<Action>>::into, (t.4,), r.1@[3]),
        call_ensures(<E as Into<Action>>::into, (t.5,), r.1@[4]),
        call_ensures(<F as Into<Action>>::into, (t.6,), r.1@[5]),
        call_ensures(<G as Into<Action>>::into, (t.7,), r.1@[6]),
        call_ensures(<H as Into<Action>>::into, (t.8,), r.1@[7]),
        <A as IntoSpec<Action>>::obeys_into_spec() && <B as IntoSpec<Action>>::obeys_into_spec() && <C as IntoSpec<Action>>::obeys_into_spec() && <D as IntoSpec<Action>>::obeys_into_spec() && <E as IntoSpec<Action>>::obeys_into_spec() && <F as IntoSpec<Action>>::obeys_into_spec() && <G as IntoSpec<Action>>::obeys_into_spec() && <H as IntoSpec<Action>>::obeys_into_spec() ==> r.1@ == seq![t.1.into_spec(), t.2.into_spec(), t.3.into_spec(), t.4.into_spec(), t.5.into_spec(), t.6.into_spec(), t.7.into_spec(), t.8.into_spec()],
{
}

/// A method's tuple of a value and 9 actions hands back the value and, index by
/// index, the conversion of each action element in tuple order.
pub proof fn lemma_method_return_actions_9<T, Action, A: Into<Action>, B: Into<Action>, C: Into<Action>, D: Into<Action>, E: Into<Action>, F: Into<Action>, G: Into<Action>, H: Into<Action>, I: Into<Action>>(t: (T, A, B, C, D, E, F, G, H, I), r: (T, Vec<Action>))
    requires
        call_ensures(<(T, A, B, C, D, E, F, G, H, I) as MethodReturn<Action>>::convert, (t,), r),
    ensures
        r.0 == t.0,
        r.1@.len() == 9,
        call_ensures(<A as Into<Action>>::into, (t.1,), r.1@[0]),
        call_ensures(<B as Into<Action>>::into, (t.2,), r.1@[1]),
        call_ensures(<C as Into<Action>>::into, (t.3,), r.1@[2]),
        call_ensures(<D as Into<Action>>::into, (t.4,), r.1@[3]),
        call_ensures(<E as Into<Action>>::into, (t.5,), r.1@[4]),
        call_ensures(<F as Into<Action>>::into, (t.6,), r.1@[5]),
        call_ensures(<G as Into<Action>>::into, (t.7,), r.1@[6]),
        call_ensures(<H as Into<Action>>::into, (t.8,), r.1@[7]),
        call_ensures(<I as Into<Action>>::into, (t.9,), r.1@[8]),
        <A as IntoSpec<Action>>::obeys_into_spec() && <B as IntoSpec<Action>>::obeys_into_spec() && <C as IntoSpec<Action>>::obeys_into_spec() && <D as IntoSpec<Action>>::obeys_into_spec() && <E as IntoSpec<Action>>::obeys_into_spec() && <F as IntoSpec<Action>>::obeys_into_spec() && <G as IntoSpec<Action>>::obeys_into_spec() && <H as IntoSpec<Action>>::obeys_into_spec() && <I as IntoSpec<Action>>::obeys_into_spec() ==> r.1@ == seq![t.1.into_spec(), t.2.into_spec(), t.3.into_spec(), t.4.into_spec(), t.5.into_spec(), t.6.into_spec(), t.7.into_spec(), t.8.into_spec(), t.9.into_spec()],
{
}

/// A method's tuple of a value and 10 actions hands back the value and, index by
/// index, the conversion of each action element in tuple order.
pub proof fn lemma_method_return_actions_10<T, Action, A: Into<Action>, B: Into<Action>, C: Into<Action>, D: Into<Action>, E: Into<Action>, F: Into<Action>, G: Into<Action>, H: Into<Action>, I: Into<Action>, J: Into<Action>>(t: (T, A, B, C, D, E, F, G, H, I, J), r: (T, Vec<Action>))
    requires
        call_ensures(<(T, A, B, C, D, E, F, G, H, I, J) as MethodReturn<Action>>::convert, (t,), r),
    ensures
        r.0 == t.0,
        r.1@.len() == 10,
        call_ensures(<A as Into<Action>>::into, (t.1,), r.1@[0]),
        call_ensures(<B as Into<Action>>::into, (t.2,), r.1@[1]),
        call_ensures(<C as Into<Action>>::into, (t.3,), r.1@[2]),
        call_ensures(<D as Into<Action>>::into, (t.4,), r.1@[3]),
        call_ensures(<E as Into<Action>>::into, (t.5,), r.1@[4]),
        call_ensures(<F as Into<Action>>::into, (t.6,), r.1@[5]),
        call_ensures(<G as Into<Action>>::into, (t.7,), r.1@[6]),
        call_ensures(<H as Into<Action>>::into, (t.8,), r.1@[7]),
        call_ensures(<I as Into<Action>>::into, (t.9,), r.1@[8]),
        call_ensures(<J as Into<Action>>::into, (t.10,), r.1@[9]),
        <A as IntoSpec<Action>>::obeys_into_spec() && <B as IntoSpec<Action>>::obeys_into_spec() && <C as IntoSpec<Action>>::obeys_into_spec() && <D as IntoSpec<Action>>::obeys_into_spec() && <E as IntoSpec<Action>>::obeys_into_spec() && <F as IntoSpec<Action>>::obeys_into_spec() && <G as IntoSpec<Action>>::obeys_into_spec() && <H as IntoSpec<Action>>::obeys_into_spec() && <I as IntoSpec<Action>>::obeys_into_spec() && <J as IntoSpec<Action>>::obeys_into_spec() ==> r.1@ == seq![t.1.into_spec(), t.2.into_spec(), t.3.into_spec(), t.4.into_spec(), t.5.into_spec(), t.6.into_spec(), t.7.into_spec(), t.8.into_spec(), t.9.into_spec(), t.10.into_spec()],
{
}

/// A method's tuple of a value and 11 actions hands back the value and, index by
/// index, the conversion of each action element in tuple order.
pub proof fn lemma_method_return_actions_11<T, Action, A: Into<Action>, B: Into<Action>, C: Into<Action>, D: Into<Action>, E: Into<Action>, F: Into<Action>, G: Into<Action>, H: Into<Action>, I: Into<Action>, J: Into<Action>, K: Into<Action>>(t: (T, A, B, C, D, E, F, G, H, I, J, K), r: (T, Vec<Action>))
    requires
        call_ensures(<(T, A, B, C, D, E, F, G, H, I, J, K) as MethodReturn<Action>>::convert, (t,), r),
    ensures
        r.0 == t.0,
        r.1@.len() == 11,
        call_ensures(<A as Into<Action>>::into, (t.1,), r.1@[0]),
        call_ensures(<B as Into<Action>>::into, (t.2,), r.1@[1]),
        call_ensures(<C as Into<Action>>::into, (t.3,), r.1@[2]),
        call_ensures(<D as Into<Action>>::into, (t.4,), r.1@[3]),
        call_ensures(<E as Into<Action>>::into, (t.5,), r.1@[4]),
        call_ensures(<F as Into<Action>>::into, (t.6,), r.1@[5]),
        call_ensures(<G as Into<Action>>::into, (t.7,), r.1@[6]),
        call_ensures(<H as Into<Action>>::into, (t.8,), r.1@[7]),
        call_ensures(<I as Into<Action>>::into, (t.9,), r.1@[8]),
        call_ensures(<J as Into<Action>>::into, (t.10,), r.1@[9]),
        call_ensures(<K as Into<Action>>::into, (t.11,), r.1@[10]),
        <A as IntoSpec<Action>>::obeys_into_spec() && <B as IntoSpec<Action>>::obeys_into_spec() && <C as IntoSpec<Action>>::obeys_into_spec() && <D as IntoSpec<Action>>::obeys_into_spec() && <E as IntoSpec<Action>>::obeys_into_spec() && <F as IntoSpec<Action>>::obeys_into_spec() && <G as IntoSpec<Action>>::obeys_into_spec() && <H as IntoSpec<Action>>::obeys_into_spec() && <I as IntoSpec<Action>>::obeys_into_spec() && <J as IntoSpec<Action>>::obeys_into_spec() && <K as IntoSpec<Action>>::obeys_into_spec() ==> r.1@ == seq![t.1.into_spec(), t.2.into_spec(), t.3.into_spec(), t.4.into_spec(), t.5.into_spec(), t.6.into_spec(), t.7.into_spec(), t.8.into_spec(), t.9.into_spec(), t.10.into_spec(), t.11.into_spec()],
{
}

/// A method's tuple of a value and 12 actions hands back the value and, index by
/// index, the conversion of each action element in tuple order.
pub proof fn lemma_method_return_actions_12<T, Action, A: Into<Action>, B: Into<Action>, C: Into<Action>, D: Into<Action>, E: Into<Action>, F: Into<Action>, G: Into<Action>, H: Into<Action>, I: Into<Action>, J: Into<Action>, K: Into<Action>, L: Into<Action>>(t: (T, A, B, C, D, E, F, G, H, I, J, K, L), r: (T, Vec<Action>))
    requires
        call_ensures(<(T, A, B, C, D, E, F, G, H, I, J, K, L) as MethodReturn<Action>>::convert, (t,), r),
    ensures
        r.0 == t.0,
        r.1@.len() == 12,
        call_ensures(<A as Into<Action>>::into, (t.1,), r.1@[0]),
        call_ensures(<B as Into<Action>>::into, (t.2,), r.1@[1]),
        call_ensures(<C as Into<Action>>::into, (t.3,), r.1@[2]),
        call_ensures(<D as Into<Action>>::into, (t.4,), r.1@[3]),
        call_ensures(<E as Into<Action>>::into, (t.5,), r.1@[4]),
        call_ensures(<F as Into<Action>>::into, (t.6,), r.1@[5]),
        call_ensures(<G as Into<Action>>::into, (t.7,), r.1@[6]),
        call_ensures(<H as Into<Action>>::into, (t.8,), r.1@[7]),
        call_ensures(<I as Into<Action>>::into, (t.9,), r.1@[8]),
        call_ensures(<J as Into<Action>>::into, (t.10,), r.1@[9]),
        call_ensures(<K as Into<Action>>::into, (t.11,), r.1@[10]),
        call_ensures(<L as Into<Action>>::into, (t.12,), r.1@[11]),
        <A as IntoSpec<Action>>::obeys_into_spec() && <B as IntoSpec<Action>>::obeys_into_spec() && <C as IntoSpec<Action>>::obeys_into_spec() && <D as IntoSpec<Action>>::obeys_into_spec() && <E as IntoSpec<Action>>::obeys_into_spec() && <F as IntoSpec<Action>>::obeys_into_spec() && <G as IntoSpec<Action>>::obeys_into_spec() && <H as IntoSpec<Action>>::obeys_into_spec() && <I as IntoSpec<Action>>::obeys_into_spec() && <J as IntoSpec<Action>>::obeys_into_spec() && <K as IntoSpec<Action>>::obeys_into_spec() && <L as IntoSpec<Action>>::obeys_into_spec() ==> r.1@ == seq![t.1.into_spec(), t.2.into_spec(), t.3.into_spec(), t.4.into_spec(), t.5.into_spec(), t.6.into_spec(), t.7.into_spec(), t.8.into_spec(), t.9.into_spec(), t.10.into_spec(), t.11.into_spec(), t.12.into_spec()],
{
}

/// A method's tuple of a value and 13 actions hands back the value and, index by
/// index, the conversion of each action element in tuple order.
pub proof fn lemma_method_return_actions_13<T, Action, A: Into<Action>, B: Into<Action>, C: Into<Action>, D: Into<Action>, E: Into<Action>, F: Into<Action>, G: Into<Action>, H: Into<Action>, I: Into<Action>, J: Into<Action>, K: Into<Action>, L: Into<Action>, M: Into<Action>>(t: (T, A, B, C, D, E, F, G, H, I, J, K, L, M), r: (T, Vec<Action>))
    requires
        call_ensures(<(T, A, B, C, D, E, F, G, H, I, J, K, L, M) as MethodReturn<Action>>::convert, (t,), r),
    ensures
        r.0 == t.0,
        r.1@.len() == 13,
        call_ensures(<A as Into<Action>>::into, (t.1,), r.1@[0]),
        call_ensures(<B as Into<Action>>::into, (t.2,), r.1@[1]),
        call_ensures(<C as Into<Action>>::into, (t.3,), r.1@[2]),
        call_ensures(<D as Into<Action>>::into, (t.4,), r.1@[3]),
        call_ensures(<E as Into<Action>>::into, (t.5,), r.1@[4]),
        call_ensures(<F as Into<Action>>::into, (t.6,), r.1@[5]),
        call_ensures(<G as Into<Action>>::into, (t.7,), r.1@[6]),
        call_ensures(<H as Into<Action>>::into, (t.8,), r.1@[7]),
        call_ensures(<I as Into<Action>>::into, (t.9,), r.1@[8]),
        call_ensures(<J as Into<Action>>::into, (t.10,), r.1@[9]),
        call_ensures(<K as Into<Action>>::into, (t.11,), r.1@[10]),
        call_ensures(<L as Into<Action>>::into, (t.12,), r.1@[11]),
        call_ensures(<M as Into<Action>>::into, (t.13,), r.1@[12]),
        <A as IntoSpec<Action>>::obeys_into_spec() && <B as IntoSpec<Action>>::obeys_into_spec() && <C as IntoSpec<Action>>::obeys_into_spec() && <D as IntoSpec<Action>>::obeys_into_spec() && <E as IntoSpec<Action>>::obeys_into_spec() && <F as IntoSpec<Action>>::obeys_into_spec() && <G as IntoSpec<Action>>::obeys_into_spec() && <H as IntoSpec<Action>>::obeys_into_spec() && <I as IntoSpec<Action>>::obeys_into_spec() && <J as IntoSpec<Action>>::obeys_into_spec() && <K as IntoSpec<Action>>::obeys_into_spec() && <L as IntoSpec<Action>>::obeys_into_spec() && <M as IntoSpec<Action>>::obeys_into_spec() ==> r.1@ == seq![t.1.into_spec(), t.2.into_spec(), t.3.into_spec(), t.4.into_spec(), t.5.into_spec(), t.6.into_spec(), t.7.into_spec(), t.8.into_spec(), t.9.into_spec(), t.10.into_spec(), t.11.into_spec(), t.12.into_spec(), t.13.into_spec()],
{
}

/// A method's tuple of a value and 14 actions hands back the value and, index by
/// index, the conversion of each action element in tuple order.
pub proof fn lemma_method_return_actions_14<T, Action, A: Into<Action>, B: Into<Action>, C: Into<Action>, D: Into<Action>, E: Into<Action>, F: Into<Action>, G: Into<Action>, H: Into<Action>, I: Into<Action>, J: Into<Action>, K: Into<Action>, L: Into<Action>, M: Into<Action>, N: Into<Action>>(t: (T, A, B, C, D, E, F, G, H, I, J, K, L, M, N), r: (T, Vec<Action>))
    requires
        call_ensures(<(T, A, B, C, D, E, F, G, H, I, J, K, L, M, N) as MethodReturn<Action>>::convert, (t,), r),
    ensures
        r.0 == t.0,
        r.1@.len() == 14,
        call_ensures(<A as Into<Action>>::into, (t.1,), r.1@[0]),
        call_ensures(<B as Into<Action>>::into, (t.2,), r.1@[1]),
        call_ensures(<C as Into<Action>>::into, (t.3,), r.1@[2]),
        call_ensures(<D as Into<Action>>::into, (t.4,), r.1@[3]),
        call_ensures(<E as Into<Action>>::into, (t.5,), r.1@[4]),
        call_ensures(<F as Into<Action>>::into, (t.6,), r.1@[5]),
        call_ensures(<G as Into<Action>>::into, (t.7,), r.1@[6]),
        call_ensures(<H as Into<Action>>::into, (t.8,), r.1@[7]),
        call_ensures(<I as Into<Action>>::into, (t.9,), r.1@[8]),
        call_ensures(<J as Into<Action>>::into, (t.10,), r.1@[9]),
        call_ensures(<K as Into<Action>>::into, (t.11,), r.1@[10]),
        call_ensures(<L as Into<Action>>::into, (t.12,), r.1@[11]),
        call_ensures(<M as Into<Action>>::into, (t.13,), r.1@[12]),
        call_ensures(<N as Into<Action>>::into, (t.14,), r.1@[13]),
        <A as IntoSpec<Action>>::obeys_into_spec() && <B as IntoSpec<Action>>::obeys_into_spec() && <C as IntoSpec<Action>>::obeys_into_spec() && <D as IntoSpec<Action>>::obeys_into_spec() && <E as IntoSpec<Action>>::obeys_into_spec() && <F as IntoSpec<Action>>::obeys_into_spec() && <G as IntoSpec<Action>>::obeys_into_spec() && <H as IntoSpec<Action>>::obeys_into_spec() && <I as IntoSpec<Action>>::obeys_into_spec() && <J as IntoSpec<Action>>::obeys_into_spec() && <K as IntoSpec<Action>>::obeys_into_spec() && <L as IntoSpec<Action>>::obeys_into_spec() && <M as IntoSpec<Action>>::obeys_into_spec() && <N as IntoSpec<Action>>::obeys_into_spec() ==> r.1@ == seq![t.1.into_spec(), t.2.into_spec(), t.3.into_spec(), t.4.into_spec(), t.5.into_spec(), t.6.into_spec(), t.7.into_spec(), t.8.into_spec(), t.9.into_spec(), t.10.into_spec(), t.11.into_spec(), t.12.into_spec(), t.13.into_spec(), t.14.into_spec()],
{
}

/// A method's tuple of a value and 15 actions hands back the value and, index by
/// index, the conversion of each action element in tuple order.
pub proof fn lemma_method_return_actions_15<T, Action, A: Into<Action>, B: Into<Action>, C: Into<Action>, D: Into<Action>, E: Into<Action>, F: Into<Action>, G: Into<Action>, H: Into<Action>, I: Into<Action>, J: Into<Action>, K: Into<Action>, L: Into<Action>, M: Into<Action>, N: Into<Action>, O: Into<Action>>(t: (T, A, B, C, D, E, F, G, H, I, J, K, L, M, N, O), r: (T, Vec<Action>))
    requires
        call_ensures(<(T, A, B, C, D, E, F, G, H, I, J, K, L, M, N, O) as MethodReturn<Action>>::convert, (t,), r),
    ensures
        r.0 == t.0,
        r.1@.len() == 15,
        call_ensures(<A as Into<Action>>::into, (t.1,), r.1@[0]),
        call_ensures(<B as Into<Action>>::into, (t.2,), r.1@[1]),
        call_ensures(<C as Into<Action>>::into, (t.3,), r.1@[2]),
        call_ensures(<D as Into<Action>>::into, (t.4,), r.1@[3]),
        call_ensures(<E as Into<Action>>::into, (t.5,), r.1@[4]),
        call_ensures(<F as Into<Action>>::into, (t.6,), r.1@[5]),
        call_ensures(<G as Into<Action>>::into, (t.7,), r.1@[6]),
        call_ensures(<H as Into<Action>>::into, (t.8,), r.1@[7]),
        call_ensures(<I as Into<Action>>::into, (t.9,), r.1@[8]),
        call_ensures(<J as Into<Action>>::into, (t.10,), r.1@[9]),
        call_ensures(<K as Into<Action>>::into, (t.11,), r.1@[10]),
        call_ensures(<L as Into<Action>>::into, (t.12,), r.1@[11]),
        call_ensures(<M as Into<Action>>::into, (t.13,), r.1@[12]),
        call_ensures(<N as Into<Action>>::into, (t.14,), r.1@[13]),
        call_ensures(<O as Into<Action>>::into, (t.15,), r.1@[14]),
        <A as IntoSpec<Action>>::obeys_into_spec() && <B as IntoSpec<Action>>::obeys_into_spec() && <C as IntoSpec<Action>>::obeys_into_spec() && <D as IntoSpec<Action>>::obeys_into_spec() && <E as IntoSpec<Action>>::obeys_into_spec() && <F as IntoSpec<Action>>::obeys_into_spec() && <G as IntoSpec<Action>>::obeys_into_spec() && <H as IntoSpec<Action>>::obeys_into_spec() && <I as IntoSpec<Action>>::obeys_into_spec() && <J as IntoSpec<Action>>::obeys_into_spec() && <K as IntoSpec<Action>>::obeys_into_spec() && <L as IntoSpec<Action>>::obeys_into_spec() && <M as IntoSpec<Action>>::obeys_into_spec() && <N as IntoSpec<Action>>::obeys_into_spec() && <O as IntoSpec<Action>>::obeys_into_spec() ==> r.1@ == seq![t.1.into_spec(), t.2.into_spec(), t.3.into_spec(), t.4.into_spec(), t.5.into_spec(), t.6.into_spec(), t.7.into_spec(), t.8.into_spec(), t.9.into_spec(), t.10.into_spec(), t.11.into_spec(), t.12.into_spec(), t.13.into_spec(), t.14.into_spec(), t.15.into_spec()],
{
}

/// A method's tuple of a value and 16 actions hands back the value and, index by
/// index, the conversion of each action element in tuple order.
pub proof fn lemma_method_return_actions_16<T, Action, A: Into<Action>, B: Into<Action>, C: Into<Action>, D: Into<Action>, E: Into<Action>, F: Into<Action>, G: Into<Action>, H: Into<Action>, I: Into<Action>, J: Into<Action>, K: Into<Action>, L: Into<Action>, M: Into<Action>, N: Into<Action>, O: Into<Action>, P: Into<Action>>(t: (T, A, B, C, D, E, F, G, H, I, J, K, L, M, N, O, P), r: (T, Vec<Action>))
    requires
        call_ensures(<(T, A, B, C, D, E, F, G, H, I, J, K, L, M, N, O, P) as MethodReturn<Action>>::convert, (t,), r),
    ensures
        r.0 == t.0,
        r.1@.len() == 16,
        call_ensures(<A as Into<Action>>::into, (t.1,), r.1@[0]),
        call_ensures(<B as Into<Action>>::into, (t.2,), r.1@[1]),
        call_ensures(<C as Into<Action>>::into, (t.3,), r.1@[2]),
        call_ensures(<D as Into<Action>>::into, (t.4,), r.1@[3]),
        call_ensures(<E as Into<Action>>::into, (t.5,), r.1@[4]),
        call_ensures(<F as Into<Action>>::into, (t.6,), r.1@[5]),
        call_ensures(<G as Into<Action>>::into, (t.7,), r.1@[6]),
        call_ensures(<H as Into<Action>>::into, (t.8,), r.1@[7]),
        call_ensures(<I as Into<Action>>::into, (t.9,), r.1@[8]),
        call_ensures(<J as Into<Action>>::into, (t.10,), r.1@[9]),
        call_ensures(<K as Into<Action>>::into, (t.11,), r.1@[10]),
        call_ensures(<L as Into<Action>>::into, (t.12,), r.1@[11]),
        call_ensures(<M as Into<Action>>::into, (t.13,), r.1@[12]),
        call_ensures(<N as Into<Action>>::into, (t.14,), r.1@[13]),
        call_ensures(<O as Into<Action>>::into, (t.15,), r.1@[14]),
        call_ensures(<P as Into<Action>>::into, (t.16,), r.1@[15]),
        <A as IntoSpec<Action>>::obeys_into_spec() && <B as IntoSpec<Action>>::obeys_into_spec() && <C as IntoSpec<Action>>::obeys_into_spec() && <D as IntoSpec<Action>>::obeys_into_spec() && <E as IntoSpec<Action>>::obeys_into_spec() && <F as IntoSpec<Action>>::obeys_into_spec() && <G as IntoSpec<Action>>::obeys_into_spec() && <H as IntoSpec<Action>>::obeys_into_spec() && <I as IntoSpec<Action>>::obeys_into_spec() && <J as IntoSpec<Action>>::obeys_into_spec() && <K as IntoSpec<Action>>::obeys_into_spec() && <L as IntoSpec<Action>>::obeys_into_spec() && <M as IntoSpec<Action>>::obeys_into_spec() && <N as IntoSpec<Action>>::obeys_into_spec() && <O as IntoSpec<Action>>::obeys_into_spec() && <P as IntoSpec<Action>>::obeys_into_spec() ==> r.1@ == seq![t.1.into_spec(), t.2.into_spec(), t.3.into_spec(), t.4.into_spec(), t.5.into_spec(), t.6.into_spec(), t.7.into_spec(), t.8.into_spec(), t.9.into_spec(), t.10.into_spec(), t.11.into_spec(), t.12.into_spec(), t.13.into_spec(), t.14.into_spec(), t.15.into_spec(), t.16.into_spec()],
{
}

/// A setter's tuple of 1 action hands back, index by index, the conversion
/// of each element in tuple order.
pub proof fn lemma_set_return_actions_1<Action, A: Into<Action>>(t: (A,), r: Vec<Action>)
    requires
        call_ensures(<(A,) as SetReturn<Action>>::convert, (t,), r),
    ensures
        r@.len() == 1,
        call_ensures(<A as Into<Action>>::into, (t.0,), r@[0]),
        <A as IntoSpec<Action>>::obeys_into_spec() ==> r@ == seq![t.0.into_spec()],
{
}

/// A setter's tuple of 2 actions hands back, index by index, the conversion
/// of each element in tuple order.
pub proof fn lemma_set_return_actions_2<Action, A: Into<Action>, B: Into<Action>>(t: (A, B), r: Vec<Action>)
    requires
        call_ensures(<(A, B) as SetReturn<Action>>::convert, (t,), r),
    ensures
        r@.len() == 2,
        call_ensures(<A as Into<Action>>::into, (t.0,), r@[0]),
        call_ensures(<B as Into<Action>>::into, (t.1,), r@[1]),
        <A as IntoSpec<Action>>::obeys_into_spec() && <B as IntoSpec<Action>>::obeys_into_spec() ==> r@ == seq![t.0.into_spec(), t.1.into_spec()],
{
}

/// A setter's tuple of 3 actions hands back, index by index, the conversion
/// of each element in tuple order.
pub proof fn lemma_set_return_actions_3<Action, A: Into<Action>, B: Into<Action>, C: Into<Action>>(t: (A, B, C), r: Vec<Action>)
    requires
        call_ensures(<(A, B, C) as SetReturn<Action>>::convert, (t,), r),
    ensures
        r@.len() == 3,
        call_ensures(<A as Into<Action>>::into, (t.0,), r@[0]),
        call_ensures(<B as Into<Action>>::into, (t.1,), r@[1]),
        call_ensures(<C as Into<Action>>::into, (t.2,), r@[2]),
        <A as IntoSpec<Action>>::obeys_into_spec() && <B as IntoSpec<Action>>::obeys_into_spec() && <C as IntoSpec<Action>>::obeys_into_spec() ==> r@ == seq![t.0.into_spec(), t.1.into_spec(), t.2.into_spec()],
{
}

/// A setter's tuple of 4 actions hands back, index by index, the conversion
/// of each element in tuple order.
pub proof fn lemma_set_return_actions_4<Action, A: Into<Action>, B: Into<Action>, C: Into<Action>, D: Into<Action>>(t: (A, B, C, D), r: Vec<Action>)
    requires
        call_ensures(<(A, B, C, D) as SetReturn<Action>>::convert, (t,), r),
    ensures
        r@.len() == 4,
        call_ensures(<A as Into<Action>>::into, (t.0,), r@[0]),
        call_ensures(<B as Into<Action>>::into, (t.1,), r@[1]),
        call_ensures(<C as Into<Action>>::into, (t.2,), r@[2]),
        call_ensures(<D as Into<Action>>::into, (t.3,), r@[3]),
        <A as IntoSpec<Action>>::obeys_into_spec() && <B as IntoSpec<Action>>::obeys_into_spec() && <C as IntoSpec<Action>>::obeys_into_spec() && <D as IntoSpec<Action>>::obeys_into_spec() ==> r@ == seq![t.0.into_spec(), t.1.into_spec(), t.2.into_spec(), t.3.into_spec()],
{
}

/// A setter's tuple of 5 actions hands back, index by index, the conversion
/// of each element in tuple order.
pub proof fn lemma_set_return_actions_5<Action, A: Into<Action>, B: Into<Action>, C: Into<Action>, D: Into<Action>, E: Into<Action>>(t: (A, B, C, D, E), r: Vec<Action>)
    requires
        call_ensures(<(A, B, C, D, E) as SetReturn<Action>>::convert, (t,), r),
    ensures
        r@.len() == 5,
        call_ensures(<A as Into<Action>>::into, (t.0,), r@[0]),
        call_ensures(<B as Into<Action>>::into, (t.1,), r@[1]),
        call_ensures(<C as Into<Action>>::into, (t.2,), r@[2]),
        call_ensures(<D as Into<Action>>::into, (t.3,), r@[3]),
        call_ensures(<E as Into<Action>>::into, (t.4,), r@[4]),
        <A as IntoSpec<Action>>::obeys_into_spec() && <B as IntoSpec<Action>>::obeys_into_spec() && <C as IntoSpec<Action>>::obeys_into_spec() && <D as IntoSpec<Action>>::obeys_into_spec() && <E as IntoSpec<Action>>::obeys_into_spec() ==> r@ == seq![t.0.into_spec(), t.1.into_spec(), t.2.into_spec(), t.3.into_spec(), t.4.into_spec()],
{
}

/// A setter's tuple of 6 actions hands back, index by index, the conversion
/// of each element in tuple order.
pub proof fn lemma_set_return_actions_6<Action, A: Into<Action>, B: Into<Action>, C: Into<Action>, D: Into<Action>, E: Into<Action>, F: Into<Action>>(t: (A, B, C, D, E, F), r: Vec<Action>)
    requires
        call_ensures(<(A, B, C, D, E, F) as SetReturn<Action>>::convert, (t,), r),
    ensures
        r@.len() == 6,
        call_ensures(<A as Into<Action>>::into, (t.0,), r@[0]),
        call_ensures(<B as Into<Action>>::into, (t.1,), r@[1]),
        call_ensures(<C as Into<Action>>::into, (t.2,), r@[2]),
        call_ensures(<D as Into<Action>>::into, (t.3,), r@[3]),
        call_ensures(<E as Into<Action>>::into, (t.4,), r@[4]),
        call_ensures(<F as Into<Action>>::into, (t.5,), r@[5]),
        <A as IntoSpec<Action>>::obeys_into_spec() && <B as IntoSpec<Action>>::obeys_into_spec() && <C as IntoSpec<Action>>::obeys_into_spec() && <D as IntoSpec<Action>>::obeys_into_spec() && <E as IntoSpec<Action>>::obeys_into_spec() && <F as IntoSpec<Action>>::obeys_into_spec() ==> r@ == seq![t.0.into_spec(), t.1.into_spec(), t.2.into_spec(), t.3.into_spec(), t.4.into_spec(), t.5.into_spec()],
{
}

/// A setter's tuple of 7 actions hands back, index by index, the conversion
/// of each element in tuple order.
pub proof fn lemma_set_return_actions_7<Action, A: Into<Action>, B: Into<Action>, C: Into<Action>, D: Into<Action>, E: Into<Action>, F: Into<Action>, G: Into<Action>>(t: (A, B, C, D, E, F, G), r: Vec<Action>)
    requires
        call_ensures(<(A, B, C, D, E, F, G) as SetReturn<Action>>::convert, (t,), r),
    ensures
        r@.len() == 7,
        call_ensures(<A as Into<Action>>::into, (t.0,), r@[0]),
        call_ensures(<B as Into<Action>>::into, (t.1,), r@[1]),
        call_ensures(<C as Into<Action>>::into, (t.2,), r@[2]),
        call_ensures(<D as Into<Action>>::into, (t.3,), r@[3]),
        call_ensures(<E as Into<Action>>::into, (t.4,), r@[4]),
        call_ensures(<F as Into<Action>>::into, (t.5,), r@[5]),
        call_ensures(<G as Into<Action>>::into, (t.6,), r@[6]),
        <A as IntoSpec<Action>>::obeys_into_spec() && <B as IntoSpec<Action>>::obeys_into_spec() && <C as IntoSpec<Action>>::obeys_into_spec() && <D as IntoSpec<Action>>::obeys_into_spec() && <E as IntoSpec<Action>>::obeys_into_spec() && <F as IntoSpec<Action>>::obeys_into_spec() && <G as IntoSpec<Action>>::obeys_into_spec() ==> r@ == seq![t.0.into_spec(), t.1.into_spec(), t.2.into_spec(), t.3.into_spec(), t.4.into_spec(), t.5.into_spec(), t.6.into_spec()],
{
}

/// A setter's tuple of 8 actions hands back, index by index, the conversion
/// of each element in tuple order.
pub proof fn lemma_set_return_actions_8<Action, A: Into<Action>, B: Into<Action>, C: Into<Action>, D: Into<Action>, E: Into<Action>, F: Into<Action>, G: Into<Action>, H: Into<Action>>(t: (A, B, C, D, E, F, G, H), r: Vec<Action>)
    requires
        call_ensures(<(A, B, C, D, E, F, G, H) as SetReturn<Action>>::convert, (t,), r),
    ensures
        r@.len() == 8,
        call_ensures(<A as Into<Action>>::into, (t.0,), r@[0]),
        call_ensures(<B as Into<Action>>::into, (t.1,), r@[1]),
        call_ensures(<C as Into<Action>>::into, (t.2,), r@[2]),
        call_ensures(<D as Into<Action>>::into, (t.3,), r@[3]),
        call_ensures(<E as Into<Action>>::into, (t.4,), r@[4]),
        call_ensures(<F as Into<Action>>::into, (t.5,), r@[5]),
        call_ensures(<G as Into<Action>>::into, (t.6,), r@[6]),
        call_ensures(<H as Into<Action>>::into, (t.7,), r@[7]),
        <A as IntoSpec<Action>>::obeys_into_spec() && <B as IntoSpec<Action>>::obeys_into_spec() && <C as IntoSpec<Action>>::obeys_into_spec() && <D as IntoSpec<Action>>::obeys_into_spec() && <E as IntoSpec<Action>>::obeys_into_spec() && <F as IntoSpec<Action>>::obeys_into_spec() && <G as IntoSpec<Action>>::obeys_into_spec() && <H as IntoSpec<Action>>::obeys_into_spec() ==> r@ == seq![t.0.into_spec(), t.1.into_spec(), t.2.into_spec(), t.3.into_spec(), t.4.into_spec(), t.5.into_spec(), t.6.into_spec(), t.7.into_spec()],
{
}

/// A setter's tuple of 9 actions hands back, index by index, the conversion
/// of each element in tuple order.
pub proof fn lemma_set_return_actions_9<Action, A: Into<Action>, B: Into<Action>, C: Into<Action>, D: Into<Action>, E: Into<Action>, F: Into<Action>, G: Into<Action>, H: Into<Action>, I: Into<Action>>(t: (A, B, C, D, E, F, G, H, I), r: Vec<Action>)
    requires
        call_ensures(<(A, B, C, D, E, F, G, H, I) as SetReturn<Action>>::convert, (t,), r),
    ensures
        r@.len() == 9,
        call_ensures(<A as Into<Action>>::into, (t.0,), r@[0]),
        call_ensures(<B as Into<Action>>::into, (t.1,), r@[1]),
        call_ensures(<C as Into<Action>>::into, (t.2,), r@[2]),
        call_ensures(<D as Into<Action>>::into, (t.3,), r@[3]),
        call_ensures(<E as Into<Action>>::into, (t.4,), r@[4]),
        call_ensures(<F as Into<Action>>::into, (t.5,), r@[5]),
        call_ensures(<G as Into<Action>>::into, (t.6,), r@[6]),
        call_ensures(<H as Into<Action>>::into, (t.7,), r@[7]),
        call_ensures(<I as Into<Action>>::into, (t.8,), r@[8]),
        <A as IntoSpec<Action>>::obeys_into_spec() && <B as IntoSpec<Action>>::obeys_into_spec() && <C as IntoSpec<Action>>::obeys_into_spec() && <D as IntoSpec<Action>>::obeys_into_spec() && <E as IntoSpec<Action>>::obeys_into_spec() && <F as IntoSpec<Action>>::obeys_into_spec() && <G as IntoSpec<Action>>::obeys_into_spec() && <H as IntoSpec<Action>>::obeys_into_spec() && <I as IntoSpec<Action>>::obeys_into_spec() ==> r@ == seq![t.0.into_spec(), t.1.into_spec(), t.2.into_spec(), t.3.into_spec(), t.4.into_spec(), t.5.into_spec(), t.6.into_spec(), t.7.into_spec(), t.8.into_spec()],
{
}

/// A setter's tuple of 10 actions hands back, index by index, the conversion
/// of each element in tuple order.
pub proof fn lemma_set_return_actions_10<Action, A: Into<Action>, B: Into<Action>, C: Into<Action>, D: Into<Action>, E: Into<Action>, F: Into<Action>, G: Into<Action>, H: Into<Action>, I: Into<Action>, J: Into<Action>>(t: (A, B, C, D, E, F, G, H, I, J), r: Vec<Action>)
    requires
        call_ensures(<(A, B, C, D, E, F, G, H, I, J) as SetReturn<Action>>::convert, (t,), r),
    ensures
        r@.len() == 10,
        call_ensures(<A as Into<Action>>::into, (t.0,), r@[0]),
        call_ensures(<B as Into<Action>>::into, (t.1,), r@[1]),
        call_ensures(<C as Into<Action>>::into, (t.2,), r@[2]),
        call_ensures(<D as Into<Action>>::into, (t.3,), r@[3]),
        call_ensures(<E as Into<Action>>::into, (t.4,), r@[4]),
        call_ensures(<F as Into<Action>>::into, (t.5,), r@[5]),
        call_ensures(<G as Into<Action>>::into, (t.6,), r@[6]),
        call_ensures(<H as Into<Action>>::into, (t.7,), r@[7]),
        call_ensures(<I as Into<Action>>::into, (t.8,), r@[8]),
        call_ensures(<J as Into<Action>>::into, (t.9,), r@[9]),
        <A as IntoSpec<Action>>::obeys_into_spec() && <B as IntoSpec<Action>>::obeys_into_spec() && <C as IntoSpec<Action>>::obeys_into_spec() && <D as IntoSpec<Action>>::obeys_into_spec() && <E as IntoSpec<Action>>::obeys_into_spec() && <F as IntoSpec<Action>>::obeys_into_spec() && <G as IntoSpec<Action>>::obeys_into_spec() && <H as IntoSpec<Action>>::obeys_into_spec() && <I as IntoSpec<Action>>::obeys_into_spec() && <J as IntoSpec<Action>>::obeys_into_spec() ==> r@ == seq![t.0.into_spec(), t.1.into_spec(), t.2.into_spec(), t.3.into_spec(), t.4.into_spec(), t.5.into_spec(), t.6.into_spec(), t.7.into_spec(), t.8.into_spec(), t.9.into_spec()],
{
}

/// A setter's tuple of 11 actions hands back, index by index, the conversion
/// of each element in tuple order.
pub proof fn lemma_set_return_actions_11<Action, A: Into<Action>, B: Into<Action>, C: Into<Action>, D: Into<Action>, E: Into<Action>, F: Into<Action>, G: Into<Action>, H: Into<Action>, I: Into<Action>, J: Into<Action>, K: Into<Action>>(t: (A, B, C, D, E, F, G, H, I, J, K), r: Vec<Action>)
    requires
        call_ensures(<(A, B, C, D, E, F, G, H, I, J, K) as SetReturn<Action>>::convert, (t,), r),
    ensures
        r@.len() == 11,
        call_ensures(<A as Into<Action>>::into, (t.0,), r@[0]),
        call_ensures(<B as Into<Action>>::into, (t.1,), r@[1]),
        call_ensures(<C as Into<Action>>::into, (t.2,), r@[2]),
        call_ensures(<D as Into<Action>>::into, (t.3,), r@[3]),
        call_ensures(<E as Into<Action>>::into, (t.4,), r@[4]),
        call_ensures(<F as Into<Action>>::into, (t.5,), r@[5]),
        call_ensures(<G as Into<Action>>::into, (t.6,), r@[6]),
        call_ensures(<H as Into<Action>>::into, (t.7,), r@[7]),
        call_ensures(<I as Into<Action>>::into, (t.8,), r@[8]),
        call_ensures(<J as Into<Action>>::into, (t.9,), r@[9]),
        call_ensures(<K as Into<Action>>::into, (t.10,), r@[10]),
        <A as IntoSpec<Action>>::obeys_into_spec() && <B as IntoSpec<Action>>::obeys_into_spec() && <C as IntoSpec<Action>>::obeys_into_spec() && <D as IntoSpec<Action>>::obeys_into_spec() && <E as IntoSpec<Action>>::obeys_into_spec() && <F as IntoSpec<Action>>::obeys_into_spec() && <G as IntoSpec<Action>>::obeys_into_spec() && <H as IntoSpec<Action>>::obeys_into_spec() && <I as IntoSpec<Action>>::obeys_into_spec() && <J as IntoSpec<Action>>::obeys_into_spec() && <K as IntoSpec<Action>>::obeys_into_spec() ==> r@ == seq![t.0.into_spec(), t.1.into_spec(), t.2.into_spec(), t.3.into_spec(), t.4.into_spec(), t.5.into_spec(), t.6.into_spec(), t.7.into_spec(), t.8.into_spec(), t.9.into_spec(), t.10.into_spec()],
{
}

/// A setter's tuple of 12 actions hands back, index by index, the conversion
/// of each element in tuple order.
pub proof fn lemma_set_return_actions_12<Action, A: Into<Action>, B: Into<Action>, C: Into<Action>, D: Into<Action>, E: Into<Action>, F: Into<Action>, G: Into<Action>, H: Into<Action>, I: Into<Action>, J: Into<Action>, K: Into<Action>, L: Into<Action>>(t: (A, B, C, D, E, F, G, H, I, J, K, L), r: Vec<Action>)
    requires
        call_ensures(<(A, B, C, D, E, F, G, H, I, J, K, L) as SetReturn<Action>>::convert, (t,), r),
    ensures
        r@.len() == 12,
        call_ensures(<A as Into<Action>>::into, (t.0,), r@[0]),
        call_ensures(<B as Into<Action>>::into, (t.1,), r@[1]),
        call_ensures(<C as Into<Action>>::into, (t.2,), r@[2]),
        call_ensures(<D as Into<Action>>::into, (t.3,), r@[3]),
        call_ensures(<E as Into<Action>>::into, (t.4,), r@[4]),
        call_ensures(<F as Into<Action>>::into, (t.5,), r@[5]),
        call_ensures(<G as Into<Action>>::into, (t.6,), r@[6]),
        call_ensures(<H as Into<Action>>::into, (t.7,), r@[7]),
        call_ensures(<I as Into<Action>>::into, (t.8,), r@[8]),
        call_ensures(<J as Into<Action>>::into, (t.9,), r@[9]),
        call_ensures(<K as Into<Action>>::into, (t.10,), r@[10]),
        call_ensures(<L as Into<Action>>::into, (t.11,), r@[11]),
        <A as IntoSpec<Action>>::obeys_into_spec() && <B as IntoSpec<Action>>::obeys_into_spec() && <C as IntoSpec<Action>>::obeys_into_spec() && <D as IntoSpec<Action>>::obeys_into_spec() && <E as IntoSpec<Action>>::obeys_into_spec() && <F as IntoSpec<Action>>::obeys_into_spec() && <G as IntoSpec<Action>>::obeys_into_spec() && <H as IntoSpec<Action>>::obeys_into_spec() && <I as IntoSpec<Action>>::obeys_into_spec() && <J as IntoSpec<Action>>::obeys_into_spec() && <K as IntoSpec<Action>>::obeys_into_spec() && <L as IntoSpec<Action>>::obeys_into_spec() ==> r@ == seq![t.0.into_spec(), t.1.into_spec(), t.2.into_spec(), t.3.into_spec(), t.4.into_spec(), t.5.into_spec(), t.6.into_spec(), t.7.into_spec(), t.8.into_spec(), t.9.into_spec(), t.10.into_spec(), t.11.into_spec()],
{
}

/// A setter's tuple of 13 actions hands back, index by index, the conversion
/// of each element in tuple order.
pub proof fn lemma_set_return_actions_13<Action, A: Into<Action>, B: Into<Action>, C: Into<Action>, D: Into<Action>, E: Into<Action>, F: Into<Action>, G: Into<Action>, H: Into<Action>, I: Into<Action>, J: Into<Action>, K: Into<Action>, L: Into<Action>, M: Into<Action>>(t: (A, B, C, D, E, F, G, H, I, J, K, L, M), r: Vec<Action>)
    requires
        call_ensures(<(A, B, C, D, E, F, G, H, I, J, K, L, M) as SetReturn<Action>>::convert, (t,), r),
    ensures
        r@.len() == 13,
        call_ensures(<A as Into<Action>>::into, (t.0,), r@[0]),
        call_ensures(<B as Into<Action>>::into, (t.1,), r@[1]),
        call_ensures(<C as Into<Action>>::into, (t.2,), r@[2]),
        call_ensures(<D as Into<Action>>::into, (t.3,), r@[3]),
        call_ensures(<E as Into<Action>>::into, (t.4,), r@[4]),
        call_ensures(<F as Into<Action>>::into, (t.5,), r@[5]),
        call_ensures(<G as Into<Action>>::into, (t.6,), r@[6]),
        call_ensures(<H as Into<Action>>::into, (t.7,), r@[7]),
        call_ensures(<I as Into<Action>>::into, (t.8,), r@[8]),
        call_ensures(<J as Into<Action>>::into, (t.9,), r@[9]),
        call_ensures(<K as Into<Action>>::into, (t.10,), r@[10]),
        call_ensures(<L as Into<Action>>::into, (t.11,), r@[11]),
        call_ensures(<M as Into<Action>>::into, (t.12,), r@[12]),
        <A as IntoSpec<Action>>::obeys_into_spec() && <B as IntoSpec<Action>>::obeys_into_spec() && <C as IntoSpec<Action>>::obeys_into_spec() && <D as IntoSpec<Action>>::obeys_into_spec() && <E as IntoSpec<Action>>::obeys_into_spec() && <F as IntoSpec<Action>>::obeys_into_spec() && <G as IntoSpec<Action>>::obeys_into_spec() && <H as IntoSpec<Action>>::obeys_into_spec() && <I as IntoSpec<Action>>::obeys_into_spec() && <J as IntoSpec<Action>>::obeys_into_spec() && <K as IntoSpec<Action>>::obeys_into_spec() && <L as IntoSpec<Action>>::obeys_into_spec() && <M as IntoSpec<Action>>::obeys_into_spec() ==> r@ == seq![t.0.into_spec(), t.1.into_spec(), t.2.into_spec(), t.3.into_spec(), t.4.into_spec(), t.5.into_spec(), t.6.into_spec(), t.7.into_spec(), t.8.into_spec(), t.9.into_spec(), t.10.into_spec(), t.11.into_spec(), t.12.into_spec()],
{
}

/// A setter's tuple of 14 actions hands back, index by index, the conversion
/// of each element in tuple order.
pub proof fn lemma_set_return_actions_14<Action, A: Into<Action>, B: Into<Action>, C: Into<Action>, D: Into<Action>, E: Into<Action>, F: Into<Action>, G: Into<Action>, H: Into<Action>, I: Into<Action>, J: Into<Action>, K: Into<Action>, L: Into<Action>, M: Into<Action>, N: Into<Action>>(t: (A, B, C, D, E, F, G, H, I, J, K, L, M, N), r: Vec<Action>)
    requires
        call_ensures(<(A, B, C, D, E, F, G, H, I, J, K, L, M, N) as SetReturn<Action>>::convert, (t,), r),
    ensures
        r@.len() == 14,
        call_ensures(<A as Into<Action>>::into, (t.0,), r@[0]),
        call_ensures(<B as Into<Action>>::into, (t.1,), r@[1]),
        call_ensures(<C as Into<Action>>::into, (t.2,), r@[2]),
        call_ensures(<D as Into<Action>>::into, (t.3,), r@[3]),
        call_ensures(<E as Into<Action>>::into, (t.4,), r@[4]),
        call_ensures(<F as Into<Action>>::into, (t.5,), r@[5]),
        call_ensures(<G as Into<Action>>::into, (t.6,), r@[6]),
        call_ensures(<H as Into<Action>>::into, (t.7,), r@[7]),
        call_ensures(<I as Into<Action>>::into, (t.8,), r@[8]),
        call_ensures(<J as Into<Action>>::into, (t.9,), r@[9]),
        call_ensures(<K as Into<Action>>::into, (t.10,), r@[10]),
        call_ensures(<L as Into<Action>>::into, (t.11,), r@[11]),
        call_ensures(<M as Into<Action>>::into, (t.12,), r@[12]),
        call_ensures(<N as Into<Action>>::into, (t.13,), r@[13]),
        <A as IntoSpec<Action>>::obeys_into_spec() && <B as IntoSpec<Action>>::obeys_into_spec() && <C as IntoSpec<Action>>::obeys_into_spec() && <D as IntoSpec<Action>>::obeys_into_spec() && <E as IntoSpec<Action>>::obeys_into_spec() && <F as IntoSpec<Action>>::obeys_into_spec() && <G as IntoSpec<Action>>::obeys_into_spec() && <H as IntoSpec<Action>>::obeys_into_spec() && <I as IntoSpec<Action>>::obeys_into_spec() && <J as IntoSpec<Action>>::obeys_into_spec() && <K as IntoSpec<Action>>::obeys_into_spec() && <L as IntoSpec<Action>>::obeys_into_spec() && <M as IntoSpec<Action>>::obeys_into_spec() && <N as IntoSpec<Action>>::obeys_into_spec() ==> r@ == seq![t.0.into_spec(), t.1.into_spec(), t.2.into_spec(), t.3.into_spec(), t.4.into_spec(), t.5.into_spec(), t.6.into_spec(), t.7.into_spec(), t.8.into_spec(), t.9.into_spec(), t.10.into_spec(), t.11.into_spec(), t.12.into_spec(), t.13.into_spec()],
{
}

/// A setter's tuple of 15 actions hands back, index by index, the conversion
/// of each element in tuple order.
pub proof fn lemma_set_return_actions_15<Action, A: Into<Action>, B: Into<Action>, C: Into<Action>, D: Into<Action>, E: Into<Action>, F: Into<Action>, G: Into<Action>, H: Into<Action>, I: Into<Action>, J: Into<Action>, K: Into<Action>, L: Into<Action>, M: Into<Action>, N: Into<Action>, O: Into<Action>>(t: (A, B, C, D, E, F, G, H, I, J, K, L, M, N, O), r: Vec<Action>)
    requires
        call_ensures(<(A, B, C, D, E, F, G, H, I, J, K, L, M, N, O) as SetReturn<Action>>::convert, (t,), r),
    ensures
        r@.len() == 15,
        call_ensures(<A as Into<Action>>::into, (t.0,), r@[0]),
        call_ensures(<B as Into<Action>>::into, (t.1,), r@[1]),
        call_ensures(<C as Into<Action>>::into, (t.2,), r@[2]),
        call_ensures(<D as Into<Action>>::into, (t.3,), r@[3]),
        call_ensures(<E as Into<Action>>::into, (t.4,), r@[4]),
        call_ensures(<F as Into<Action>>::into, (t.5,), r@[5]),
        call_ensures(<G as Into<Action>>::into, (t.6,), r@[6]),
        call_ensures(<H as Into<Action>>::into, (t.7,), r@[7]),
        call_ensures(<I as Into<Action>>::into, (t.8,), r@[8]),
        call_ensures(<J as Into<Action>>::into, (t.9,), r@[9]),
        call_ensures(<K as Into<Action>>::into, (t.10,), r@[10]),
        call_ensures(<L as Into<Action>>::into, (t.11,), r@[11]),
        call_ensures(<M as Into<Action>>::into, (t.12,), r@[12]),
        call_ensures(<N as Into<Action>>::into, (t.13,), r@[13]),
        call_ensures(<O as Into<Action>>::into, (t.14,), r@[14]),
        <A as IntoSpec<Action>>::obeys_into_spec() && <B as IntoSpec<Action>>::obeys_into_spec() && <C as IntoSpec<Action>>::obeys_into_spec() && <D as IntoSpec<Action>>::obeys_into_spec() && <E as IntoSpec<Action>>::obeys_into_spec() && <F as IntoSpec<Action>>::obeys_into_spec() && <G as IntoSpec<Action>>::obeys_into_spec() && <H as IntoSpec<Action>>::obeys_into_spec() && <I as IntoSpec<Action>>::obeys_into_spec() && <J as IntoSpec<Action>>::obeys_into_spec() && <K as IntoSpec<Action>>::obeys_into_spec() && <L as IntoSpec<Action>>::obeys_into_spec() && <M as IntoSpec<Action>>::obeys_into_spec() && <N as IntoSpec<Action>>::obeys_into_spec() && <O as IntoSpec<Action>>::obeys_into_spec() ==> r@ == seq![t.0.into_spec(), t.1.into_spec(), t.2.into_spec(), t.3.into_spec(), t.4.into_spec(), t.5.into_spec(), t.6.into_spec(), t.7.into_spec(), t.8.into_spec(), t.9.into_spec(), t.10.into_spec(), t.11.into_spec(), t.12.into_spec(), t.13.into_spec(), t.14.into_spec()],
{
}

/// A setter's tuple of 16 actions hands back, index by index, the conversion
/// of each element in tuple order.
pub proof fn lemma_set_return_actions_16<Action, A: Into<Action>, B: Into<Action>, C: Into<Action>, D: Into<Action>, E: Into<Action>, F: Into<Action>, G: Into<Action>, H: Into<Action>, I: Into<Action>, J: Into<Action>, K: Into<Action>, L: Into<Action>, M: Into<Action>, N: Into<Action>, O: Into<Action>, P: Into<Action>>(t: (A, B, C, D, E, F, G, H, I, J, K, L, M, N, O, P), r: Vec<Action>)
    requires
        call_ensures(<(A, B, C, D, E, F, G, H, I, J, K, L, M, N, O, P) as SetReturn<Action>>::convert, (t,), r),
    ensures
        r@.len() == 16,
        call_ensures(<A as Into<Action>>::into, (t.0,), r@[0]),
        call_ensures(<B as Into<Action>>::into, (t.1,), r@[1]),
        call_ensures(<C as Into<Action>>::into, (t.2,), r@[2]),
        call_ensures(<D as Into<Action>>::into, (t.3,), r@[3]),
        call_ensures(<E as Into<Action>>::into, (t.4,), r@[4]),
        call_ensures(<F as Into<Action>>::into, (t.5,), r@[5]),
        call_ensures(<G as Into<Action>>::into, (t.6,), r@[6]),
        call_ensures(<H as Into<Action>>::into, (t.7,), r@[7]),
        call_ensures(<I as Into<Action>>::into, (t.8,), r@[8]),
        call_ensures(<J as Into<Action>>::into, (t.9,), r@[9]),
        call_ensures(<K as Into<Action>>::into, (t.10,), r@[10]),
        call_ensures(<L as Into<Action>>::into, (t.11,), r@[11]),
        call_ensures(<M as Into<Action>>::into, (t.12,), r@[12]),
        call_ensures(<N as Into<Action>>::into, (t.13,), r@[13]),
        call_ensures(<O as Into<Action>>::into, (t.14,), r@[14]),
        call_ensures(<P as Into<Action>>::into, (t.15,), r@[15]),
        <A as IntoSpec<Action>>::obeys_into_spec() && <B as IntoSpec<Action>>::obeys_into_spec() && <C as IntoSpec<Action>>::obeys_into_spec() && <D as IntoSpec<Action>>::obeys_into_spec() && <E as IntoSpec<Action>>::obeys_into_spec() && <F as IntoSpec<Action>>::obeys_into_spec() && <G as IntoSpec<Action>>::obeys_into_spec() && <H as IntoSpec<Action>>::obeys_into_spec() && <I as IntoSpec<Action>>::obeys_into_spec() && <J as IntoSpec<Action>>::obeys_into_spec() && <K as IntoSpec<Action>>::obeys_into_spec() && <L as IntoSpec<Action>>::obeys_into_spec() && <M as IntoSpec<Action>>::obeys_into_spec() && <N as IntoSpec<Action>>::obeys_into_spec() && <O as IntoSpec<Action>>::obeys_into_spec() && <P as IntoSpec<Action>>::obeys_into_spec() ==> r@ == seq![t.0.into_spec(), t.1.into_spec(), t.2.into_spec(), t.3.into_spec(), t.4.into_spec(), t.5.into_spec(), t.6.into_spec(), t.7.into_spec(), t.8.into_spec(), t.9.into_spec(), t.10.into_spec(), t.11.into_spec(), t.12.into_spec(), t.13.into_spec(), t.14.into_spec(), t.15.into_spec()],
{
}

} // verus!

