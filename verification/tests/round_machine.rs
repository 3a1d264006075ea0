use spru_script::round::{initial, run, transition, Input, State};

#[test]
fn round_starts_optional() {
    assert_eq!(initial(), State::OptionalPlay);
}

#[test]
fn input_constructors_give_their_variants() {
    assert_eq!(Input::full_play(), Input::FullPlay);
    assert_eq!(Input::partial_play(), Input::PartialPlay);
    assert_eq!(Input::pass(), Input::Pass);
    assert_eq!(Input::score(), Input::Score);
}

#[test]
fn transition_table() {
    assert_eq!(transition(State::OptionalPlay, Input::FullPlay), Some(State::MandatoryPlay));
    assert_eq!(transition(State::OptionalPlay, Input::Pass), Some(State::OptionalPlay));
    assert_eq!(transition(State::OptionalPlay, Input::PartialPlay), None);
    assert_eq!(transition(State::OptionalPlay, Input::Score), None);
    assert_eq!(transition(State::MandatoryPlay, Input::PartialPlay), Some(State::MandatoryPlay));
    assert_eq!(transition(State::MandatoryPlay, Input::FullPlay), Some(State::MandatoryPlay));
    assert_eq!(transition(State::MandatoryPlay, Input::Score), Some(State::OptionalPlay));
    assert_eq!(transition(State::MandatoryPlay, Input::Pass), None);
}

#[test]
fn a_whole_round_comes_back_to_optional() {
    let inputs = vec![Input::Pass, Input::FullPlay, Input::PartialPlay, Input::FullPlay, Input::Score];
    assert_eq!(run(State::OptionalPlay, &inputs), Some(State::OptionalPlay));
}

#[test]
fn partial_play_needs_an_opening() {
    assert_eq!(run(State::OptionalPlay, &vec![Input::Pass, Input::PartialPlay]), None);
    assert_eq!(run(State::OptionalPlay, &vec![Input::FullPlay, Input::PartialPlay]), Some(State::MandatoryPlay));
}

#[test]
fn no_pass_after_opening() {
    assert_eq!(run(State::OptionalPlay, &vec![Input::FullPlay, Input::Pass, Input::Score]), None);
}

#[test]
fn empty_run_keeps_state() {
    assert_eq!(run(State::MandatoryPlay, &vec![]), Some(State::MandatoryPlay));
}
