//! The scripted steps of a game: its initialisation, a player's arrival and
//! departure, an interaction and a reaction, each a script that a language
//! runs with its arguments.
use vstd::prelude::*;
use std::marker::PhantomData;

verus! {

/// The game's initialisation: the script that builds the root.
pub struct GameInit<Root, Language, Args> {
    language: Language,
    script: String,
    args: Args,
    _p: PhantomData<(Root,)>,
}

impl<Root, Language, Args> GameInit<Root, Language, Args> {
    pub closed spec fn spec_language(&self) -> Language {
        self.language
    }

    pub closed spec fn spec_script(&self) -> Seq<char> {
        self.script@
    }

    pub closed spec fn spec_args(&self) -> Args {
        self.args
    }

    pub fn new(language: Language, script: String, args: Args) -> (r: Self)
        ensures
            r.spec_language() == language,
            r.spec_script() == script@,
            r.spec_args() == args,
    {
        GameInit { language, script, args, _p: PhantomData }
    }

    /// What initialising the game runs: the language, the script and its
    /// arguments.
    pub fn into_call(self) -> (r: (Language, String, Args))
        ensures
            r.0 == self.spec_language(),
            r.1@ == self.spec_script(),
            r.2 == self.spec_args(),
    {
        (self.language, self.script, self.args)
    }
}

/// A player's arrival, and optionally departure, run as scripts.
pub struct PlayerInit<Root, Language, Args> {
    language: Language,
    script: String,
    remove_script: Option<String>,
    _p: PhantomData<(Root, Args)>,
}

/// Removing a player when no script for it was given.
#[derive(Debug, Clone, Copy, PartialEq, Eq, Structural)]
pub struct RemoveNotImplemented;

impl RemoveNotImplemented {
    pub fn message(&self) -> (r: &'static str)
        ensures
            r@ == "Removing players is not implemented"@,
    {
        "Removing players is not implemented"
    }
}

impl<Root, Language, Args> PlayerInit<Root, Language, Args> {
    pub closed spec fn spec_language(&self) -> Language {
        self.language
    }

    pub closed spec fn spec_script(&self) -> Seq<char> {
        self.script@
    }

    pub closed spec fn spec_remove_script(&self) -> Option<Seq<char>> {
        match self.remove_script {
            Some(s) => Some(s@),
            None => None,
        }
    }

    pub fn new(language: Language, script: String) -> (r: Self)
        ensures
            r.spec_language() == language,
            r.spec_script() == script@,
            r.spec_remove_script() is None,
    {
        PlayerInit { language, script, remove_script: None, _p: PhantomData }
    }

    /// Adds the script that runs when a player leaves.
    pub fn with_remove_player(self, remove_player_script: String) -> (r: Self)
        ensures
            r.spec_language() == self.spec_language(),
            r.spec_script() == self.spec_script(),
            r.spec_remove_script() == Some(remove_player_script@),
    {
        PlayerInit {
            language: self.language,
            script: self.script,
            remove_script: Some(remove_player_script),
            _p: PhantomData,
        }
    }

    pub fn language(&self) -> (r: &Language)
        ensures
            *r == self.spec_language(),
    {
        &self.language
    }

    /// The script that initialises an arriving player.
    pub fn script(&self) -> (r: &String)
        ensures
            r@ == self.spec_script(),
    {
        &self.script
    }

    /// The script that a player's departure runs; refused where none was
    /// given.
    pub fn remove(&self) -> (r: Result<&String, RemoveNotImplemented>)
        ensures
            match self.spec_remove_script() {
                Some(s) => r is Ok && r->Ok_0@ == s,
                None => r is Err,
            },
    {
        match &self.remove_script {
            Some(s) => Ok(s),
            None => Err(RemoveNotImplemented),
        }
    }
}

/// A player's interaction, run as a script with fixed arguments.
pub struct Interaction<Root, Trigger, Language, Args> {
    language: Language,
    script: String,
    args: Args,
    _p: PhantomData<(Root, Trigger)>,
}

impl<Root, Trigger, Language, Args> Interaction<Root, Trigger, Language, Args> {
    pub closed spec fn spec_language(&self) -> Language {
        self.language
    }

    pub closed spec fn spec_script(&self) -> Seq<char> {
        self.script@
    }

    pub closed spec fn spec_args(&self) -> Args {
        self.args
    }

    pub fn new(language: Language, script: String, args: Args) -> (r: Self)
        ensures
            r.spec_language() == language,
            r.spec_script() == script@,
            r.spec_args() == args,
    {
        Interaction { language, script, args, _p: PhantomData }
    }

    /// What applying the interaction runs: the language, the script and its
    /// arguments.
    pub fn call(&self) -> (r: (&Language, &String, &Args))
        ensures
            *r.0 == self.spec_language(),
            r.1@ == self.spec_script(),
            *r.2 == self.spec_args(),
    {
        (&self.language, &self.script, &self.args)
    }
}

/// A reaction to a trigger, run as a script that receives the trigger.
pub struct Reaction<Root, Trigger, GameOutcome, Language> {
    language: Language,
    script: String,
    _p: PhantomData<(Root, Trigger, GameOutcome)>,
}

impl<Root, Trigger, GameOutcome, Language> Reaction<Root, Trigger, GameOutcome, Language> {
    pub closed spec fn spec_language(&self) -> Language {
        self.language
    }

    pub closed spec fn spec_script(&self) -> Seq<char> {
        self.script@
    }

    pub fn new(language: Language, script: String) -> (r: Self)
        ensures
            r.spec_language() == language,
            r.spec_script() == script@,
    {
        Reaction { language, script, _p: PhantomData }
    }

    /// What applying the reaction to `trigger` runs: the language, the
    /// script, and the trigger as its argument.
    pub fn call(&self, trigger: Trigger) -> (r: (&Language, &String, Trigger))
        ensures
            *r.0 == self.spec_language(),
            r.1@ == self.spec_script(),
            r.2 == trigger,
    {
        (&self.language, &self.script, trigger)
    }
}

} // verus!
