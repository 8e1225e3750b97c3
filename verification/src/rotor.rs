//! Rotors: a wiring, the ring setting that turns the wiring against the
//! ring, and the notch that makes the neighbour step.

use vstd::prelude::*;
use crate::alpha::is_letter;
use crate::alpha::letter_index;
use crate::alpha::Alpha;
use crate::cipher::decode;
use crate::cipher::from_char;
use crate::cipher::from_string;
use crate::cipher::Cipher;
use crate::cipher::CipherChar;
use crate::permutation::inverse_table;
use crate::permutation::is_permutation;
use crate::permutation::lemma_shift_cancels;
use crate::permutation::lemma_shift_round_trip;
use crate::permutation::shift_through;

verus! {

/// How far the notch cam sits from the letter that shows in the window
/// when the notch is engaged.
pub const NOTCH_OFFSET: usize = 18;

/// A rotor as mathematics.
pub struct RotorView {
    /// Where each position of the wiring leads.
    pub wiring: Seq<int>,
    /// How far the wiring is turned against the ring.
    pub ring_setting: int,
    /// Where on the ring the notch is cut.
    pub notch_position: int,
}

impl RotorView {
    /// The wiring is a permutation, and ring setting and notch are positions.
    pub open spec fn wf(self) -> bool {
        &&& is_permutation(self.wiring)
        &&& 0 <= self.ring_setting < 26
        &&& 0 <= self.notch_position < 26
    }

    /// The way of a signal through the rotor from right to left.
    pub open spec fn forward(self, c: int) -> int {
        shift_through(self.wiring, self.ring_setting, c)
    }

    /// The way of a signal through the rotor from left to right.
    pub open spec fn inverse(self, c: int) -> int {
        shift_through(inverse_table(self.wiring), self.ring_setting, c)
    }

    /// Whether the notch is engaged while `window_position` shows.
    pub open spec fn notch_engaged(self, window_position: int) -> bool {
        (self.notch_position + NOTCH_OFFSET) % 26 == window_position
    }

    /// The way of a signal from right to left through the rotor while
    /// `window_position` shows in the window.
    pub open spec fn forward_at(self, window_position: int, c: int) -> int {
        (self.forward((c + window_position) % 26) + 26 - window_position) % 26
    }

    /// The way of a signal from left to right through the rotor while
    /// `window_position` shows in the window.
    pub open spec fn inverse_at(self, window_position: int, c: int) -> int {
        (self.inverse((c + window_position) % 26) + 26 - window_position) % 26
    }

    /// The two ways through a rotor undo each other.
    pub proof fn lemma_round_trip(self, c: int)
        requires
            self.wf(),
            0 <= c < 26,
        ensures
            0 <= self.forward(c) < 26,
            0 <= self.inverse(c) < 26,
            self.inverse(self.forward(c)) == c,
            self.forward(self.inverse(c)) == c,
    {
        lemma_shift_round_trip(self.wiring, self.ring_setting, c);
    }

    /// The two ways through a rotor undo each other whatever shows in the
    /// window.
    pub proof fn lemma_round_trip_at(self, window_position: int, c: int)
        requires
            self.wf(),
            0 <= window_position < 26,
            0 <= c < 26,
        ensures
            0 <= self.forward_at(window_position, c) < 26,
            0 <= self.inverse_at(window_position, c) < 26,
            self.inverse_at(window_position, self.forward_at(window_position, c)) == c,
            self.forward_at(window_position, self.inverse_at(window_position, c)) == c,
    {
        let entry = (c + window_position) % 26;
        lemma_shift_cancels(window_position, c);
        self.lemma_round_trip(entry);
        lemma_shift_cancels(window_position, self.forward(entry));
        lemma_shift_cancels(window_position, self.inverse(entry));
    }
}

/// A rotor implements a substitution cipher by wires that lead from its
/// twenty-six inputs to its twenty-six outputs.
///
/// The wiring sits in a core that can be turned against the outer ring, by
/// the ring setting. The ring carries the letters, one of which shows in the
/// machine's window, and a notch that decides when the neighbour to the left
/// steps. A rotor does not change: which letter shows in the window is kept
/// by the machine, not by the rotor.
#[derive(Debug, Copy, Clone)]
pub struct Rotor {
    wiring: Cipher,
    ring_setting: CipherChar,
    notch_position: CipherChar,
}

impl View for Rotor {
    type V = RotorView;

    closed spec fn view(&self) -> RotorView {
        RotorView {
            wiring: self.wiring@,
            ring_setting: self.ring_setting as int,
            notch_position: self.notch_position as int,
        }
    }
}

impl Rotor {
    /// The invariant of the type.
    pub closed spec fn wf(&self) -> bool {
        &&& self.wiring.wf()
        &&& self@.wf()
    }

    /// A well-formed rotor has a well-formed view.
    pub proof fn lemma_wf(&self)
        requires
            self.wf(),
        ensures
            self@.wf(),
    {
    }

    /// A rotor with the given wiring, notch and ring setting.
    pub fn new(wiring: Cipher, notch_position: CipherChar, ring_setting: CipherChar) -> (rotor: Rotor)
        requires
            wiring.wf(),
            notch_position < 26,
            ring_setting < 26,
        ensures
            rotor.wf(),
            rotor@ == (RotorView {
                wiring: wiring@,
                ring_setting: ring_setting as int,
                notch_position: notch_position as int,
            }),
    {
        Rotor { wiring, ring_setting, notch_position }
    }

    /// Where a signal that enters at `c` from the right leaves on the left.
    pub fn sub(&self, c: CipherChar) -> (out: CipherChar)
        requires
            self.wf(),
            c < 26,
        ensures
            out < 26,
            out == self@.forward(c as int),
    {
        let wired = self.wiring.substitute((c + self.ring_setting) % 26);
        (wired + 26 - self.ring_setting) % 26
    }

    /// Where a signal that enters at `c` from the left leaves on the right.
    pub fn inverse_sub(&self, c: CipherChar) -> (out: CipherChar)
        requires
            self.wf(),
            c < 26,
        ensures
            out < 26,
            out == self@.inverse(c as int),
    {
        let wired = self.wiring.inverse_substitute((c + self.ring_setting) % 26);
        (wired + 26 - self.ring_setting) % 26
    }

    /// Whether the notch is engaged while `window_position` shows in the
    /// window, so that the next key press carries over to the left.
    pub fn notch_engaged(&self, window_position: CipherChar) -> (engaged: bool)
        requires
            self.wf(),
        ensures
            engaged == self@.notch_engaged(window_position as int),
    {
        (self.notch_position + NOTCH_OFFSET) % 26 == window_position
    }
}

/// A rotor that still lacks its ring setting.
#[derive(Debug, Copy, Clone)]
pub struct RotorFactory {
    wiring: Cipher,
    notch_position: CipherChar,
}

impl RotorFactory {
    /// The wiring of the rotors that the factory makes.
    pub closed spec fn wiring(&self) -> Seq<int> {
        self.wiring@
    }

    /// The notch of the rotors that the factory makes.
    pub closed spec fn notch_position(&self) -> int {
        self.notch_position as int
    }

    /// The invariant of the type.
    pub closed spec fn wf(&self) -> bool {
        &&& self.wiring.wf()
        &&& self.notch_position < 26
    }

    /// Whether the factory makes rotors wired as the letters of `wiring`
    /// say, with the notch at the letter `notch`.
    pub open spec fn makes(&self, wiring: Seq<char>, notch: char) -> bool {
        &&& self.wf()
        &&& self.wiring() == decode(wiring)
        &&& self.notch_position() == letter_index(notch)
    }

    /// The rotor of this wiring and notch with the given ring setting.
    pub fn with_ring_setting(&self, ring_setting: Alpha) -> (rotor: Rotor)
        requires
            self.wf(),
        ensures
            rotor.wf(),
            rotor@ == (RotorView {
                wiring: self.wiring(),
                ring_setting: ring_setting.index(),
                notch_position: self.notch_position(),
            }),
    {
        proof {
            ring_setting.lemma_index();
        }
        Rotor::new(self.wiring, self.notch_position, usize::from(ring_setting))
    }

    /// The factory for the wiring that `wiring` spells and the notch at the
    /// letter `notch`.
    fn preset(wiring: &str, notch: char) -> (factory: RotorFactory)
        requires
            wiring@.len() == 26,
            forall|i: int| 0 <= i < 26 ==> is_letter(#[trigger] wiring@[i]),
            decode(wiring@).no_duplicates(),
            is_letter(notch),
        ensures
            factory.makes(wiring@, notch),
    {
        RotorFactory { wiring: from_string(wiring).unwrap(), notch_position: from_char(notch) }
    }
}

/// The five rotors that the machine was issued with.
#[derive(Debug, Copy, Clone)]
pub struct Rotors {
    pub i: RotorFactory,
    pub ii: RotorFactory,
    pub iii: RotorFactory,
    pub iv: RotorFactory,
    pub v: RotorFactory,
}

impl Rotors {
    /// Each of the five factories makes the rotor of its number.
    pub open spec fn wf(&self) -> bool {
        &&& self.i.makes("EKMFLGDQVZNTOWYHXUSPAIBRCJ"@, 'Y')
        &&& self.ii.makes("AJDKSIRUXBLHWTMCQGZNPYFVOE"@, 'M')
        &&& self.iii.makes("BDFHJLCPRTXVZNYEIWGAKMUSQO"@, 'D')
        &&& self.iv.makes("ESOVPZJAYQUIRHXLNFTGKDCMWB"@, 'R')
        &&& self.v.makes("VZBRGITYUPSDNHLXAWMJQOFECK"@, 'H')
    }
}

impl Default for Rotors {
    fn default() -> (rotors: Rotors)
        ensures
            rotors.wf(),
    {
        proof {
            reveal_strlit("EKMFLGDQVZNTOWYHXUSPAIBRCJ");
            reveal_strlit("AJDKSIRUXBLHWTMCQGZNPYFVOE");
            reveal_strlit("BDFHJLCPRTXVZNYEIWGAKMUSQO");
            reveal_strlit("ESOVPZJAYQUIRHXLNFTGKDCMWB");
            reveal_strlit("VZBRGITYUPSDNHLXAWMJQOFECK");
        }
        Rotors {
            i: RotorFactory::preset("EKMFLGDQVZNTOWYHXUSPAIBRCJ", 'Y'),
            ii: RotorFactory::preset("AJDKSIRUXBLHWTMCQGZNPYFVOE", 'M'),
            iii: RotorFactory::preset("BDFHJLCPRTXVZNYEIWGAKMUSQO", 'D'),
            iv: RotorFactory::preset("ESOVPZJAYQUIRHXLNFTGKDCMWB", 'R'),
            v: RotorFactory::preset("VZBRGITYUPSDNHLXAWMJQOFECK", 'H'),
        }
    }
}

} // verus!
