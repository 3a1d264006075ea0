//! The options of the `script` attribute (`partial`, `include`, `state`,
//! `derive`) and what a list of them selects.
use vstd::prelude::*;
use vstd::string::*;

use crate::model::DeriveKind;


verus! {

/// An option of the `script` attribute.
#[derive(Debug, Clone, PartialEq, Eq)]
pub enum ScriptOption {
    /// `partial = Name`: the description is a partial one, exported as `Name`.
    Partial { partial: String },
    /// `include = [A, B]`: partial descriptions folded into this one.
    Includes { includes: Vec<String> },
    /// `state = bool`: whether the type is a state type.
    State { is_state: bool },
    /// `derive = [..]`: traits whose script operators are derived.
    Derive { derive: Vec<DeriveKind> },
}

/// The first `partial` option.
pub open spec fn first_partial(options: Seq<ScriptOption>) -> Option<String>
    decreases options.len(),
{
    if options.len() == 0 {
        None
    } else {
        match options[0] {
            ScriptOption::Partial { partial } => Some(partial),
            _ => first_partial(options.drop_first()),
        }
    }
}

/// The list of the first `include` option.
pub open spec fn first_includes(options: Seq<ScriptOption>) -> Option<Seq<String>>
    decreases options.len(),
{
    if options.len() == 0 {
        None
    } else {
        match options[0] {
            ScriptOption::Includes { includes } => Some(includes@),
            _ => first_includes(options.drop_first()),
        }
    }
}

/// The value of the first `state` option; a type is a state type unless told
/// otherwise.
pub open spec fn state_option(options: Seq<ScriptOption>) -> bool
    decreases options.len(),
{
    if options.len() == 0 {
        true
    } else {
        match options[0] {
            ScriptOption::State { is_state } => is_state,
            _ => state_option(options.drop_first()),
        }
    }
}

/// The list of the last `derive` option.
pub open spec fn last_derive(options: Seq<ScriptOption>) -> Option<Seq<DeriveKind>>
    decreases options.len(),
{
    if options.len() == 0 {
        None
    } else {
        match options.last() {
            ScriptOption::Derive { derive } => Some(derive@),
            _ => last_derive(options.drop_last()),
        }
    }
}

pub(crate) fn clone_strings(v: &Vec<String>) -> (r: Vec<String>)
    ensures
        r@ == v@,
{
    let mut out: Vec<String> = Vec::new();
    let mut i: usize = 0;
    while i < v.len()
        invariant
            i <= v.len(),
            out@ == v@.take(i as int),
        decreases v.len() - i,
    {
        out.push(v[i].clone());
        i = i + 1;
        assert(out@ =~= v@.take(i as int));
    }
    assert(out@ =~= v@);
    out
}

fn clone_derives(v: &Vec<DeriveKind>) -> (r: Vec<DeriveKind>)
    ensures
        r@ == v@,
{
    let mut out: Vec<DeriveKind> = Vec::new();
    let mut i: usize = 0;
    while i < v.len()
        invariant
            i <= v.len(),
            out@ == v@.take(i as int),
        decreases v.len() - i,
    {
        out.push(v[i]);
        i = i + 1;
        assert(out@ =~= v@.take(i as int));
    }
    assert(out@ =~= v@);
    out
}

pub(crate) fn options_partial(options: &Vec<ScriptOption>) -> (r: Option<String>)
    ensures
        r == first_partial(options@),
{
    assert(options@.skip(0) =~= options@);
    let mut i: usize = 0;
    while i < options.len()
        invariant
            i <= options.len(),
            first_partial(options@) == first_partial(options@.skip(i as int)),
        decreases options.len() - i,
    {
        assert(options@.skip(i as int).drop_first() =~= options@.skip(i + 1));
        assert(options@.skip(i as int)[0] == options@[i as int]);
        match &options[i] {
            ScriptOption::Partial { partial } => {
                return Some(partial.clone());
            },
            _ => {},
        }
        i = i + 1;
    }
    None
}

pub(crate) fn options_includes(options: &Vec<ScriptOption>) -> (r: Vec<String>)
    ensures
        r@ == match first_includes(options@) {
            Some(v) => v,
            None => Seq::<String>::empty(),
        },
{
    assert(options@.skip(0) =~= options@);
    let mut i: usize = 0;
    while i < options.len()
        invariant
            i <= options.len(),
            first_includes(options@) == first_includes(options@.skip(i as int)),
        decreases options.len() - i,
    {
        assert(options@.skip(i as int).drop_first() =~= options@.skip(i + 1));
        assert(options@.skip(i as int)[0] == options@[i as int]);
        match &options[i] {
            ScriptOption::Includes { includes } => {
                return clone_strings(includes);
            },
            _ => {},
        }
        i = i + 1;
    }
    Vec::new()
}

pub(crate) fn options_is_state(options: &Vec<ScriptOption>) -> (r: bool)
    ensures
        r == state_option(options@),
{
    assert(options@.skip(0) =~= options@);
    let mut i: usize = 0;
    while i < options.len()
        invariant
            i <= options.len(),
            state_option(options@) == state_option(options@.skip(i as int)),
        decreases options.len() - i,
    {
        assert(options@.skip(i as int).drop_first() =~= options@.skip(i + 1));
        assert(options@.skip(i as int)[0] == options@[i as int]);
        match &options[i] {
            ScriptOption::State { is_state } => {
                return *is_state;
            },
            _ => {},
        }
        i = i + 1;
    }
    true
}

pub(crate) fn options_derives(options: &Vec<ScriptOption>) -> (r: Vec<DeriveKind>)
    ensures
        r@ == match last_derive(options@) {
            Some(v) => v,
            None => Seq::<DeriveKind>::empty(),
        },
{
    let mut found: Option<usize> = None;
    let mut i: usize = 0;
    while i < options.len()
        invariant
            i <= options.len(),
            match found {
                Some(k) => k < i && last_derive(options@.take(i as int)) == Some(
                    match options@[k as int] {
                        ScriptOption::Derive { derive } => derive@,
                        _ => Seq::empty(),
                    },
                ) && options@[k as int] is Derive,
                None => last_derive(options@.take(i as int)) is None,
            },
        decreases options.len() - i,
    {
        assert(options@.take(i + 1).drop_last() =~= options@.take(i as int));
        assert(options@.take(i + 1).last() == options@[i as int]);
        match &options[i] {
            ScriptOption::Derive { derive } => {
                found = Some(i);
            },
            _ => {},
        }
        i = i + 1;
    }
    assert(options@.take(i as int) =~= options@);
    match found {
        Some(k) => match &options[k] {
            ScriptOption::Derive { derive } => clone_derives(derive),
            _ => Vec::new(),
        },
        None => Vec::new(),
    }
}

/// The options of `script` on a struct.
#[derive(Debug, Clone, PartialEq, Eq)]
pub struct StructOptions {
    pub options: Vec<ScriptOption>,
}

/// The options of `script` on an impl block.
#[derive(Debug, Clone, PartialEq, Eq)]
pub struct ImplOptions {
    pub options: Vec<ScriptOption>,
}

impl StructOptions {
    /// The name of the first `partial` option.
    pub fn partial(&self) -> (r: Option<String>)
        ensures
            r == first_partial(self.options@),
    {
        options_partial(&self.options)
    }

    /// The list of the first `include` option, or nothing.
    pub fn includes(&self) -> (r: Vec<String>)
        ensures
            r@ == match first_includes(self.options@) {
                Some(v) => v,
                None => Seq::<String>::empty(),
            },
    {
        options_includes(&self.options)
    }

    /// Whether the type is a state type: the first `state` option, or true.
    pub fn is_state(&self) -> (r: bool)
        ensures
            r == state_option(self.options@),
    {
        options_is_state(&self.options)
    }

    /// The list of the last `derive` option, or nothing.
    pub fn derives(&self) -> (r: Vec<DeriveKind>)
        ensures
            r@ == match last_derive(self.options@) {
                Some(v) => v,
                None => Seq::<DeriveKind>::empty(),
            },
    {
        options_derives(&self.options)
    }
}

impl ImplOptions {
    /// The name of the first `partial` option.
    pub fn partial(&self) -> (r: Option<String>)
        ensures
            r == first_partial(self.options@),
    {
        options_partial(&self.options)
    }

    /// The list of the first `include` option, or nothing.
    pub fn includes(&self) -> (r: Vec<String>)
        ensures
            r@ == match first_includes(self.options@) {
                Some(v) => v,
                None => Seq::<String>::empty(),
            },
    {
        options_includes(&self.options)
    }

    /// Whether the type is a state type: the first `state` option, or true.
    pub fn is_state(&self) -> (r: bool)
        ensures
            r == state_option(self.options@),
    {
        options_is_state(&self.options)
    }

    /// The list of the last `derive` option, or nothing.
    pub fn derives(&self) -> (r: Vec<DeriveKind>)
        ensures
            r@ == match last_derive(self.options@) {
                Some(v) => v,
                None => Seq::<DeriveKind>::empty(),
            },
    {
        options_derives(&self.options)
    }
}

} // verus!
