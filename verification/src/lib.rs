//! A three-rotor cipher machine with verified wiring, stepping and
//! enciphering.
//!
//! Letters are typed on an [`enigma::Enigma`], which is assembled by an
//! [`EnigmaBuilder`] from three rotors out of [`Rotors`], a reflector out of
//! [`Reflectors`] and the letters to show in the windows. What the machine
//! does is stated over [`machine::EnigmaView`].

pub mod alpha;
pub mod cipher;
pub mod enigma;
pub mod error;
pub mod machine;
pub mod permutation;
pub mod reflector;
pub mod rotor;

pub use self::alpha::to_string as alphas_to_string;
pub use self::alpha::Alpha;
pub use self::enigma::Enigma;
pub use self::enigma::EnigmaBuilder;
pub use self::error::Component;
pub use self::error::Error;
pub use self::reflector::Reflectors;
pub use self::rotor::Rotors;
