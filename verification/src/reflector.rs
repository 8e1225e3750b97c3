//! Reflectors: the wiring at the left end of the rotors, which sends the
//! signal back the way it came.

use vstd::prelude::*;
use crate::alpha::is_letter;
use crate::cipher::decode;
use crate::cipher::from_string;
use crate::cipher::is_pairs;
use crate::cipher::Cipher;
use crate::cipher::CipherChar;
use crate::error::Error;
use crate::permutation::has_fixed_point;
use crate::permutation::is_pairing;
use crate::permutation::is_permutation;

verus! {

/// A reflector is a substitution cipher made of thirteen pairs: where `A`
/// leads to `B`, `B` leads to `A`, and no letter leads to itself.
#[derive(Debug, Clone, Copy)]
pub struct Reflector {
    cipher: Cipher,
}

impl View for Reflector {
    type V = Seq<int>;

    /// The table: at each position, the position it is paired with.
    closed spec fn view(&self) -> Seq<int> {
        self.cipher@
    }
}

impl Reflector {
    /// The invariant of the type.
    pub closed spec fn wf(&self) -> bool {
        &&& self.cipher.wf()
        &&& is_pairing(self@)
    }

    /// A well-formed reflector is a permutation that pairs the positions.
    pub proof fn lemma_wf(&self)
        requires
            self.wf(),
        ensures
            is_permutation(self@),
            is_pairing(self@),
    {
    }

    /// The reflector wired as `cipher`, or `InvalidReflector` where the
    /// wiring does not pair the positions up.
    pub fn new(cipher: Cipher) -> (r: Result<Reflector, Error>)
        requires
            cipher.wf(),
        ensures
            r is Ok <==> is_pairing(cipher@),
            r matches Ok(reflector) ==> reflector.wf() && reflector@ == cipher@,
            r is Err ==> r == Err::<Reflector, Error>(Error::InvalidReflector),
    {
        if !is_pairs(cipher) || leaves_in_place(&cipher) {
            return Err(Error::InvalidReflector);
        }
        Ok(Reflector { cipher })
    }

    /// Where the signal that arrives at `c` is sent back.
    pub fn sub(&self, c: CipherChar) -> (out: CipherChar)
        requires
            self.wf(),
            c < 26,
        ensures
            out < 26,
            out == self@[c as int],
    {
        self.cipher.substitute(c)
    }

    /// A reflector sends each position to another one, and that one back
    /// to the first.
    pub proof fn lemma_pairs(&self, x: int)
        requires
            self.wf(),
            0 <= x < 26,
        ensures
            0 <= self@[x] < 26,
            self@[self@[x]] == x,
            self@[x] != x,
    {
    }

    /// The reflector that `wiring` spells.
    fn preset(wiring: &str) -> (reflector: Reflector)
        requires
            wiring@.len() == 26,
            forall|i: int| 0 <= i < 26 ==> is_letter(#[trigger] wiring@[i]),
            decode(wiring@).no_duplicates(),
            is_pairing(decode(wiring@)),
        ensures
            reflector.wf(),
            reflector@ == decode(wiring@),
    {
        Reflector::new(from_string(wiring).unwrap()).unwrap()
    }
}

/// Whether `cipher` wires some position to itself.
fn leaves_in_place(cipher: &Cipher) -> (b: bool)
    requires
        cipher.wf(),
    ensures
        b == has_fixed_point(cipher@),
{
    let mut i: usize = 0;
    while i < 26
        invariant
            i <= 26,
            cipher.wf(),
            forall|k: int| 0 <= k < i ==> #[trigger] cipher@[k] != k,
        decreases 26 - i,
    {
        if cipher.substitute(i) == i {
            return true;
        }
        i += 1;
    }
    false
}

/// The two reflectors that the machine was issued with.
#[derive(Debug, Clone, Copy)]
pub struct Reflectors {
    pub b: Reflector,
    pub c: Reflector,
}

impl Reflectors {
    /// Each of the two reflectors is wired as its letter says.
    pub open spec fn wf(&self) -> bool {
        &&& self.b.wf()
        &&& self.b@ == decode("YRUHQSLDPXNGOKMIEBFZCWVJAT"@)
        &&& self.c.wf()
        &&& self.c@ == decode("FVPJIAOYEDRZXWGCTKUQSBNMHL"@)
    }

    /// The reflectors B and C.
    pub fn new() -> (reflectors: Reflectors)
        ensures
            reflectors.wf(),
    {
        proof {
            reveal_strlit("YRUHQSLDPXNGOKMIEBFZCWVJAT");
            reveal_strlit("FVPJIAOYEDRZXWGCTKUQSBNMHL");
        }
        Reflectors {
            b: Reflector::preset("YRUHQSLDPXNGOKMIEBFZCWVJAT"),
            c: Reflector::preset("FVPJIAOYEDRZXWGCTKUQSBNMHL"),
        }
    }
}

} // verus!
