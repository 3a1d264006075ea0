//! The one-shot argument holder that the generated member items hand to a
//! language's registration, tagged by a marker of what is registered.
use vstd::prelude::*;
use std::marker::PhantomData;

use crate::marker;

verus! {

/// Holds the arguments of one registration until the registry takes them,
/// which it does once.
#[derive(Debug)]
pub struct Wrap<Marker, Args>(Option<Args>, PhantomData<Marker>);

impl<Marker, Args> Wrap<Marker, Args> {
    /// The arguments still held, if they were not taken yet.
    pub closed spec fn held(&self) -> Option<Args> {
        self.0
    }

    pub fn new(args: Args) -> (r: Self)
        ensures
            r.held() == Some(args),
    {
        Wrap(Some(args), PhantomData)
    }

    /// Takes the arguments out; a wrap is taken only once.
    pub fn take(&mut self) -> (r: Args)
        requires
            old(self).held() is Some,
        ensures
            r == old(self).held()->0,
            final(self).held() is None,
    {
        self.0.take().unwrap()
    }
}

impl<Args> Wrap<marker::State, Args> {
    pub fn new_state(args: Args) -> (r: Self)
        ensures
            r.held() == Some(args),
    {
        Self::new(args)
    }
}

impl<Args> Wrap<(marker::State, marker::Get), Args> {
    pub fn new_state_get(args: Args) -> (r: Self)
        ensures
            r.held() == Some(args),
    {
        Self::new(args)
    }
}

impl<Args> Wrap<(marker::State, marker::Setter), Args> {
    pub fn new_state_set(args: Args) -> (r: Self)
        ensures
            r.held() == Some(args),
    {
        Self::new(args)
    }
}

impl<Args> Wrap<(marker::State, marker::Method), Args> {
    pub fn new_state_method(args: Args) -> (r: Self)
        ensures
            r.held() == Some(args),
    {
        Self::new(args)
    }
}

impl<Args> Wrap<(marker::State, marker::Function), Args> {
    pub fn new_state_function(args: Args) -> (r: Self)
        ensures
            r.held() == Some(args),
    {
        Self::new(args)
    }
}

impl<Args> Wrap<(marker::State, marker::Create), Args> {
    pub fn new_state_create(args: Args) -> (r: Self)
        ensures
            r.held() == Some(args),
    {
        Self::new(args)
    }
}

impl<Args> Wrap<marker::Stateless, Args> {
    pub fn new_type(args: Args) -> (r: Self)
        ensures
            r.held() == Some(args),
    {
        Self::new(args)
    }
}

impl<Args> Wrap<(marker::Stateless, marker::Get), Args> {
    pub fn new_stateless_get(args: Args) -> (r: Self)
        ensures
            r.held() == Some(args),
    {
        Self::new(args)
    }
}

impl<Args> Wrap<(marker::Stateless, marker::Method), Args> {
    pub fn new_stateless_method(args: Args) -> (r: Self)
        ensures
            r.held() == Some(args),
    {
        Self::new(args)
    }
}

impl<Args> Wrap<(marker::Stateless, marker::Function), Args> {
    pub fn new_stateless_function(args: Args) -> (r: Self)
        ensures
            r.held() == Some(args),
    {
        Self::new(args)
    }
}

impl<Args> Wrap<(marker::Stateless, marker::Equality), Args> {
    pub fn new_stateless_eq(args: Args) -> (r: Self)
        ensures
            r.held() == Some(args),
    {
        Self::new(args)
    }
}

} // verus!

