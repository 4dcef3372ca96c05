//! Composite record types: a named-field record, a positional pair, and a
//! module-wide threshold with its comparison predicate.

use vstd::prelude::*;

verus! {

/// The module-wide numeric threshold against which `is_big` compares.
pub const THRESHOLD: i32 = 10;

/// A named composite: a person with a text name and a numeric age.
#[derive(Debug)]
pub struct Person {
    pub name: String,
    pub age: u32,
}

/// A positional composite: an ordered pair of a number and a character.
#[derive(Debug, PartialEq, Eq, Structural)]
pub struct Pair(pub i32, pub char);

/// The module-wide text constant naming the language of these demos.
pub fn language() -> (r: &'static str)
    ensures
        r@ == "Rust"@,
{
    "Rust"
}

/// Whether `n` lies strictly above the module-wide threshold.
pub fn is_big(n: i32) -> (r: bool)
    ensures
        r == (n > THRESHOLD),
{
    n > THRESHOLD
}

impl Person {
    /// Builds a person record from its two fields.
    pub fn new(name: String, age: u32) -> (r: Person)
        ensures
            r.name == name,
            r.age == age,
    {
        Person { name, age }
    }
}

impl Pair {
    /// Builds a pair record from its two components.
    pub fn new(n: i32, c: char) -> (r: Pair)
        ensures
            r.0 == n,
            r.1 == c,
    {
        Pair(n, c)
    }
}

} // verus!
