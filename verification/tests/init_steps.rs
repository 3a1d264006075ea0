use spru_script::init::{GameInit, Interaction, PlayerInit, Reaction};

#[test]
fn game_init_runs_its_script_with_args() {
    let init: GameInit<(), &str, u8> = GameInit::new("lua", "return 1".to_string(), 4);
    assert_eq!(init.into_call(), ("lua", "return 1".to_string(), 4));
}

#[test]
fn player_removal_needs_a_script() {
    let init: PlayerInit<(), &str, ()> = PlayerInit::new("rhai", "add()".to_string());
    assert_eq!(init.script(), "add()");
    match init.remove() {
        Err(e) => assert_eq!(e.message(), "Removing players is not implemented"),
        Ok(_) => panic!("expected a refusal"),
    }
    let init = init.with_remove_player("remove()".to_string());
    assert_eq!(init.remove().ok().unwrap(), "remove()");
    assert_eq!(*init.language(), "rhai");
}

#[test]
fn interaction_and_reaction_calls() {
    let i: Interaction<(), (), &str, (u8, u8)> = Interaction::new("rhai", "play()".to_string(), (1, 2));
    let (lang, script, args) = i.call();
    assert_eq!((*lang, script.as_str(), *args), ("rhai", "play()", (1, 2)));
    let r: Reaction<(), u8, (), &str> = Reaction::new("lua", "react()".to_string());
    let (lang, script, trigger) = r.call(9);
    assert_eq!((*lang, script.as_str(), trigger), ("lua", "react()", 9));
}
