//! The ways in which building a part of the machine can fail.

use vstd::prelude::*;

verus! {

/// A part that a machine cannot be assembled without.
#[derive(Debug, Clone, Copy, PartialEq, Eq, Structural)]
pub enum Component {
    WindowPositions,
    LeftRotor,
    MidRotor,
    RightRotor,
    Reflector,
}

/// Why a wiring table, a reflector or a machine could not be built.
#[derive(Debug, Clone, Copy, PartialEq, Eq, Structural)]
pub enum Error {
    /// A wiring string does not hold exactly twenty-six letters.
    InvalidLength,
    /// A wiring string names the same letter twice.
    DuplicateMapping,
    /// A wiring table offered as a reflector does not pair the letters up.
    InvalidReflector,
    /// A machine was to be assembled without the named part.
    MissingComponent(Component),
}

impl Error {
    /// The text that `message` returns for each error.
    pub open spec fn message_text(self) -> Seq<char> {
        match self {
            Error::InvalidLength => "String length must be 26"@,
            Error::DuplicateMapping => "Cipher string must not contain duplicate characters"@,
            Error::InvalidReflector => "Reflector cipher must be in pairs"@,
            Error::MissingComponent(Component::WindowPositions) => "Must supply initial rotor positions"@,
            Error::MissingComponent(Component::LeftRotor) => "Must supply left rotor"@,
            Error::MissingComponent(Component::MidRotor) => "Must supply mid rotor"@,
            Error::MissingComponent(Component::RightRotor) => "Must supply right rotor"@,
            Error::MissingComponent(Component::Reflector) => "Must supply reflector"@,
        }
    }

    /// A sentence for the person who supplied the faulty part.
    pub fn message(&self) -> (text: &'static str)
        ensures
            text@ == self.message_text(),
    {
        match self {
            Error::InvalidLength => "String length must be 26",
            Error::DuplicateMapping => "Cipher string must not contain duplicate characters",
            Error::InvalidReflector => "Reflector cipher must be in pairs",
            Error::MissingComponent(Component::WindowPositions) => "Must supply initial rotor positions",
            Error::MissingComponent(Component::LeftRotor) => "Must supply left rotor",
            Error::MissingComponent(Component::MidRotor) => "Must supply mid rotor",
            Error::MissingComponent(Component::RightRotor) => "Must supply right rotor",
            Error::MissingComponent(Component::Reflector) => "Must supply reflector",
        }
    }
}

} // verus!
