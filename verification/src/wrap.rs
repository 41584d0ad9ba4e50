//! The wrappers in which a handler receives its context items.

use std::ops::Deref;
use vstd::prelude::*;

verus! {

/// A snapshot of a value of the state store, handed to one handler invocation.
#[derive(Debug, PartialEq, Eq)]
pub struct State<T: Send + Sync>(pub(crate) T);

impl<T: Send + Sync> View for State<T> {
    type V = T;

    /// The value that the snapshot holds.
    closed spec fn view(&self) -> T {
        self.0
    }
}

impl<T: Send + Sync> State<T> {
    /// Wraps a value taken from the store.
    pub fn new(value: T) -> (r: Self)
        ensures
            r@ == value,
    {
        State(value)
    }

    /// Hands the value out.
    pub fn into_inner(self) -> (r: T)
        ensures
            r == self@,
    {
        self.0
    }
}

impl<T: Clone + Send + Sync> Clone for State<T> {
    fn clone(&self) -> (r: Self)
        ensures
            cloned(self@, r@),
    {
        State(self.0.clone())
    }
}

impl<T: Copy + Send + Sync> Copy for State<T> {

}

impl<T> Deref for State<T> where T: Send + Sync {
    type Target = T;

    fn deref(&self) -> (r: &T)
        ensures
            *r == self@,
    {
        &self.0
    }
}

/// The text that follows the command token of a command message.
#[derive(Debug, PartialEq, Eq)]
pub struct MsgContent(pub String);

impl View for MsgContent {
    type V = Seq<char>;

    open spec fn view(&self) -> Seq<char> {
        self.0@
    }
}

impl Clone for MsgContent {
    fn clone(&self) -> (r: Self)
        ensures
            r@ == self@,
    {
        MsgContent(self.0.clone())
    }
}

impl Deref for MsgContent {
    type Target = str;

    fn deref(&self) -> (r: &str)
        ensures
            r@ == self@,
    {
        self.0.as_str()
    }
}

} // verus!
