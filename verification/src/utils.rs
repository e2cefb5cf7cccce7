//! The character-class taxonomy of the generator and the flags that alter
//! how a password is assembled.

use vstd::prelude::*;

verus! {

/// A category of characters that may be enabled for generation.
///
/// `NoClass` is a sentinel default that selects nothing.
#[derive(Clone, Copy, Debug, PartialEq, Eq, Hash, Structural)]
pub enum CharClass {
    UpperLetters,
    LowerLetters,
    Numbers,
    SpecialCharacters,
    NoClass,
}

/// A switch that alters how the generator assembles a password.
///
/// With `CharFromEveryGroup`, one character from every selected class that
/// still has candidates after exclusion is appended ahead of the uniformly
/// drawn ones.
#[derive(Clone, Copy, Debug, PartialEq, Eq, Hash, Structural)]
pub enum GeneratorFlag {
    CharFromEveryGroup,
    NoFlags,
}

impl Default for CharClass {
    fn default() -> (r: Self)
        ensures
            r == CharClass::NoClass,
    {
        CharClass::NoClass
    }
}

impl Default for GeneratorFlag {
    fn default() -> (r: Self)
        ensures
            r == GeneratorFlag::NoFlags,
    {
        GeneratorFlag::NoFlags
    }
}

} // verus!
