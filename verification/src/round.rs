//! The round machine of the word game: whether the next play of a round is
//! optional (a player may pass) or mandatory (the round's opening full play
//! has been made and plays continue until the round is scored).
use vstd::prelude::*;

verus! {

/// The states of a round.
#[derive(Debug, Clone, Copy, PartialEq, Eq, Structural)]
pub enum State {
    /// Nobody has opened the round yet: a player may pass, or open it with a
    /// play that uses all of their cards in valid words.
    OptionalPlay,
    /// The round has been opened: plays (full or partial) continue until it
    /// is scored.
    MandatoryPlay,
}

/// The inputs that drive a round.
#[derive(Debug, Clone, Copy, PartialEq, Eq, Structural)]
pub enum Input {
    FullPlay,
    PartialPlay,
    Pass,
    Score,
}

/// The state every round starts in.
pub open spec fn initial_state() -> State {
    State::OptionalPlay
}

/// The transition table of a round: `None` where the input is not accepted in
/// the state.
pub open spec fn next_state(state: State, input: Input) -> Option<State> {
    match (state, input) {
        (State::OptionalPlay, Input::FullPlay) => Some(State::MandatoryPlay),
        (State::OptionalPlay, Input::Pass) => Some(State::OptionalPlay),
        (State::MandatoryPlay, Input::PartialPlay) => Some(State::MandatoryPlay),
        (State::MandatoryPlay, Input::FullPlay) => Some(State::MandatoryPlay),
        (State::MandatoryPlay, Input::Score) => Some(State::OptionalPlay),
        _ => None,
    }
}

/// The state reached by feeding `inputs` one after another, or `None` as soon
/// as one of them is not accepted.
pub open spec fn run_spec(state: State, inputs: Seq<Input>) -> Option<State>
    decreases inputs.len(),
{
    if inputs.len() == 0 {
        Some(state)
    } else {
        match next_state(state, inputs[0]) {
            Some(s) => run_spec(s, inputs.drop_first()),
            None => None,
        }
    }
}

impl Input {
    /// The input of a play that uses all of the player's cards.
    pub fn full_play() -> (r: Self)
        ensures
            r == Input::FullPlay,
    {
        Input::FullPlay
    }

    /// The input of a play that uses some of the player's cards.
    pub fn partial_play() -> (r: Self)
        ensures
            r == Input::PartialPlay,
    {
        Input::PartialPlay
    }

    /// The input of a player passing.
    pub fn pass() -> (r: Self)
        ensures
            r == Input::Pass,
    {
        Input::Pass
    }

    /// The input that scores the round.
    pub fn score() -> (r: Self)
        ensures
            r == Input::Score,
    {
        Input::Score
    }
}

/// The state a new round starts in.
pub fn initial() -> (r: State)
    ensures
        r == initial_state(),
{
    State::OptionalPlay
}

/// One step of the round machine.
pub fn transition(state: State, input: Input) -> (r: Option<State>)
    ensures
        r == next_state(state, input),
{
    match state {
        State::OptionalPlay => match input {
            Input::FullPlay => Some(State::MandatoryPlay),
            Input::Pass => Some(State::OptionalPlay),
            _ => None,
        },
        State::MandatoryPlay => match input {
            Input::PartialPlay => Some(State::MandatoryPlay),
            Input::FullPlay => Some(State::MandatoryPlay),
            Input::Score => Some(State::OptionalPlay),
            Input::Pass => None,
        },
    }
}

/// Feeds `inputs` to the machine in order, starting from `state`.
pub fn run(state: State, inputs: &Vec<Input>) -> (r: Option<State>)
    ensures
        r == run_spec(state, inputs@),
{
    let mut cur = state;
    let mut i: usize = 0;
    assert(inputs@.skip(0) =~= inputs@);
    while i < inputs.len()
        invariant
            i <= inputs.len(),
            run_spec(state, inputs@) == run_spec(cur, inputs@.skip(i as int)),
        decreases inputs.len() - i,
    {
        assert(inputs@.skip(i as int).drop_first() =~= inputs@.skip(i + 1));
        match transition(cur, inputs[i]) {
            Some(s) => {
                cur = s;
            },
            None => {
                return None;
            },
        }
        i = i + 1;
    }
    assert(inputs@.skip(i as int) =~= Seq::<Input>::empty());
    Some(cur)
}

/// Whether a round that was in `start` has been opened after `inputs`: some
/// full play occurred that no later score closed, or the round was open
/// already and no score occurred.
#[verifier::opaque]
pub open spec fn opened(start: State, inputs: Seq<Input>) -> bool {
    ||| exists|j: int|
        0 <= j < inputs.len() && #[trigger] inputs[j] == Input::FullPlay && forall|k: int|
            j < k < inputs.len() ==> #[trigger] inputs[k] != Input::Score
    ||| start == State::MandatoryPlay && forall|k: int| 0 <= k < inputs.len() ==> #[trigger] inputs[k]
        != Input::Score
}

/// The state that corresponds to a round being opened or not.
pub open spec fn state_of(is_opened: bool) -> State {
    if is_opened {
        State::MandatoryPlay
    } else {
        State::OptionalPlay
    }
}

/// Every input is accepted in the state that the inputs before it lead to.
pub open spec fn all_accepted(start: State, inputs: Seq<Input>) -> bool {
    forall|i: int|
        0 <= i < inputs.len() ==> (#[trigger] next_state(
            state_of(opened(start, inputs.take(i))),
            inputs[i],
        )) is Some
}

proof fn lemma_run_push(state: State, inputs: Seq<Input>, x: Input)
    ensures
        run_spec(state, inputs.push(x)) == match run_spec(state, inputs) {
            Some(s) => next_state(s, x),
            None => None,
        },
    decreases inputs.len(),
{
    reveal_with_fuel(run_spec, 2);
    if inputs.len() == 0 {
        assert(inputs.push(x).drop_first() =~= Seq::<Input>::empty());
        assert(inputs.push(x)[0] == x);
    } else {
        assert(inputs.push(x).drop_first() =~= inputs.drop_first().push(x));
        assert(inputs.push(x)[0] == inputs[0]);
        match next_state(state, inputs[0]) {
            Some(s) => {
                lemma_run_push(s, inputs.drop_first(), x);
            },
            None => {},
        }
    }
}

proof fn lemma_opened_push(start: State, inputs: Seq<Input>, x: Input)
    ensures
        opened(start, inputs.push(x)) == if x == Input::FullPlay {
            true
        } else if x == Input::Score {
            false
        } else {
            opened(start, inputs)
        },
{
    reveal(opened);
    let ys = inputs.push(x);
    let n = inputs.len() as int;
    if x == Input::FullPlay {
        assert(ys[n] == Input::FullPlay);
    } else if x == Input::Score {
        assert(ys[n] == Input::Score);
        if opened(start, ys) {
            if exists|j: int|
                0 <= j < ys.len() && #[trigger] ys[j] == Input::FullPlay && forall|k: int|
                    j < k < ys.len() ==> #[trigger] ys[k] != Input::Score {
                let j = choose|j: int|
                    0 <= j < ys.len() && #[trigger] ys[j] == Input::FullPlay && forall|k: int|
                        j < k < ys.len() ==> #[trigger] ys[k] != Input::Score;
                assert(j < n);
                assert(ys[n] != Input::Score);
            } else {
                assert(ys[n] != Input::Score);
            }
        }
    } else {
        if opened(start, inputs) {
            if exists|j: int|
                0 <= j < inputs.len() && #[trigger] inputs[j] == Input::FullPlay && forall|k: int|
                    j < k < inputs.len() ==> #[trigger] inputs[k] != Input::Score {
                let j = choose|j: int|
                    0 <= j < inputs.len() && #[trigger] inputs[j] == Input::FullPlay && forall|
                        k: int,
                    |
                        j < k < inputs.len() ==> #[trigger] inputs[k] != Input::Score;
                assert(ys[j] == Input::FullPlay);
                assert forall|k: int| j < k < ys.len() implies #[trigger] ys[k] != Input::Score by {
                    if k < n {
                        assert(ys[k] == inputs[k]);
                    }
                }
            } else {
                assert forall|k: int| 0 <= k < ys.len() implies #[trigger] ys[k] != Input::Score by {
                    if k < n {
                        assert(ys[k] == inputs[k]);
                    }
                }
            }
        }
        if opened(start, ys) {
            if exists|j: int|
                0 <= j < ys.len() && #[trigger] ys[j] == Input::FullPlay && forall|k: int|
                    j < k < ys.len() ==> #[trigger] ys[k] != Input::Score {
                let j = choose|j: int|
                    0 <= j < ys.len() && #[trigger] ys[j] == Input::FullPlay && forall|k: int|
                        j < k < ys.len() ==> #[trigger] ys[k] != Input::Score;
                assert(j < n);
                assert(inputs[j] == Input::FullPlay);
                assert forall|k: int| j < k < inputs.len() implies #[trigger] inputs[k]
                    != Input::Score by {
                    assert(ys[k] == inputs[k]);
                }
            } else {
                assert forall|k: int| 0 <= k < inputs.len() implies #[trigger] inputs[k]
                    != Input::Score by {
                    assert(ys[k] == inputs[k]);
                }
            }
        }
    }
}

/// A round's course, stated whole: a sequence of inputs is accepted exactly
/// when a pass only ever comes while the round is not opened and a partial
/// play or a score only while it is opened; and then the round ends up
/// opened exactly when a full play came after the last score.
pub proof fn lemma_round_course(start: State, inputs: Seq<Input>)
    ensures
        run_spec(start, inputs) == if all_accepted(start, inputs) {
            Some(state_of(opened(start, inputs)))
        } else {
            None::<State>
        },
    decreases inputs.len(),
{
    if inputs.len() == 0 {
        reveal(opened);
        assert(!opened(start, inputs) || start == State::MandatoryPlay);
        if start == State::MandatoryPlay {
            assert(opened(start, inputs));
        }
    } else {
        let n = inputs.len() - 1;
        let front = inputs.drop_last();
        let x = inputs[n];
        assert(inputs =~= front.push(x));
        lemma_round_course(start, front);
        lemma_run_push(start, front, x);
        lemma_opened_push(start, front, x);
        assert(inputs.take(n) =~= front);
        if all_accepted(start, inputs) {
            assert forall|i: int| 0 <= i < front.len() implies (#[trigger] next_state(
                state_of(opened(start, front.take(i))),
                front[i],
            )) is Some by {
                assert(front.take(i) =~= inputs.take(i));
                assert(next_state(state_of(opened(start, inputs.take(i))), inputs[i]) is Some);
            }
            assert(next_state(state_of(opened(start, inputs.take(n))), inputs[n]) is Some);
        } else {
            let i = choose|i: int|
                0 <= i < inputs.len() && !(#[trigger] next_state(
                    state_of(opened(start, inputs.take(i))),
                    inputs[i],
                ) is Some);
            if i < n {
                assert(front.take(i) =~= inputs.take(i));
                assert(front[i] == inputs[i]);
                assert(!(next_state(state_of(opened(start, front.take(i))), front[i]) is Some));
            }
        }
    }
}

/// A score, when accepted, always closes the round, and it is accepted only
/// in an opened round.
pub proof fn lemma_score_closes(state: State)
    ensures
        next_state(state, Input::Score) is Some <==> state == State::MandatoryPlay,
        next_state(state, Input::Score) is Some ==> next_state(state, Input::Score) == Some(
            State::OptionalPlay,
        ),
{
}

/// The opening rule: in a round that starts unopened, a partial play is
/// accepted only after some full play that no score has closed since.
pub proof fn lemma_partial_play_needs_opening(inputs: Seq<Input>, i: int)
    requires
        run_spec(initial_state(), inputs) is Some,
        0 <= i < inputs.len(),
        inputs[i] == Input::PartialPlay,
    ensures
        exists|j: int|
            0 <= j < i && #[trigger] inputs[j] == Input::FullPlay && forall|k: int|
                j < k < i ==> #[trigger] inputs[k] != Input::Score,
{
    let pre = inputs.take(i);
    assert(opened(initial_state(), pre)) by {
        lemma_round_course(initial_state(), inputs);
        assert(all_accepted(initial_state(), inputs));
        assert(next_state(state_of(opened(initial_state(), inputs.take(i))), inputs[i]) is Some);
    }
    assert(exists|j: int|
        0 <= j < pre.len() && #[trigger] pre[j] == Input::FullPlay && forall|k: int|
            j < k < pre.len() ==> #[trigger] pre[k] != Input::Score) by {
        reveal(opened);
    }
    let j = choose|j: int|
        0 <= j < pre.len() && #[trigger] pre[j] == Input::FullPlay && forall|k: int|
            j < k < pre.len() ==> #[trigger] pre[k] != Input::Score;
    assert(inputs[j] == Input::FullPlay);
    assert forall|k: int| j < k < i implies #[trigger] inputs[k] != Input::Score by {
        assert(pre[k] == inputs[k]);
    }
}

} // verus!
