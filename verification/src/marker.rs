//! The markers that tag a `Wrap` with what it registers: a state or plain
//! type, and the kind of member.
use vstd::prelude::*;

verus! {

/// A state type: its items live in the game's storage.
#[derive(Debug, Clone, Copy)]
pub struct State;

/// A plain type, passed to scripts by value.
#[derive(Debug, Clone, Copy)]
pub struct Stateless;

/// A property getter.
#[derive(Debug, Clone, Copy)]
pub struct Get;

/// A property setter.
#[derive(Debug, Clone, Copy)]
pub struct Setter;

/// A method on an item.
#[derive(Debug, Clone, Copy)]
pub struct Method;

/// A function without a receiver.
#[derive(Debug, Clone, Copy)]
pub struct Function;

/// A constructor of a state item.
#[derive(Debug, Clone, Copy)]
pub struct Create;

/// The equality operators of a plain type.
#[derive(Debug, Clone, Copy)]
pub struct Equality;

} // verus!
