//! The machine as mathematics: three rotors with the letters in their
//! windows, a reflector, how a key press moves the rotors and which lamp it
//! lights.

use vstd::prelude::*;
use crate::alpha::Alpha;
use crate::error::Component;
use crate::permutation::is_pairing;
use crate::permutation::is_permutation;
use crate::rotor::RotorView;

verus! {

/// Where the left rotor stands among the rotors of a machine.
pub const LEFT: usize = 0;

/// Where the middle rotor stands among the rotors of a machine.
pub const MIDDLE: usize = 1;

/// Where the right rotor stands among the rotors of a machine.
pub const RIGHT: usize = 2;

/// A machine as mathematics.
pub struct EnigmaView {
    /// The rotors from left to right.
    pub rotors: Seq<RotorView>,
    /// The position that shows in the window of each rotor, from left to
    /// right.
    pub window_positions: Seq<int>,
    /// The pairs of the reflector.
    pub reflector: Seq<int>,
    /// The window positions that the machine was assembled with.
    pub original_window_positions: Seq<int>,
}

/// Whether `positions` holds a position for each of three rotors.
pub open spec fn are_window_positions(positions: Seq<int>) -> bool {
    &&& positions.len() == 3
    &&& forall|i: int| 0 <= i < 3 ==> 0 <= #[trigger] positions[i] < 26
}

impl EnigmaView {
    /// Three well-formed rotors, a reflector that pairs the positions, and
    /// positions in every window, now and at the start.
    pub open spec fn wf(self) -> bool {
        &&& self.rotors.len() == 3
        &&& forall|i: int| 0 <= i < 3 ==> (#[trigger] self.rotors[i]).wf()
        &&& are_window_positions(self.window_positions)
        &&& is_permutation(self.reflector)
        &&& is_pairing(self.reflector)
        &&& are_window_positions(self.original_window_positions)
    }

    /// Whether the notch of rotor `i` is engaged as the rotors stand.
    pub open spec fn notch_engaged(self, i: int) -> bool {
        self.rotors[i].notch_engaged(self.window_positions[i])
    }

    /// Whether the next key press moves rotor `i`, as the rotors stand
    /// before the press.
    ///
    /// The right rotor always moves. The middle rotor moves when the notch
    /// of the right rotor is engaged, and also when its own is: it then
    /// moves together with the left rotor, which moves in no other case.
    pub open spec fn steps(self, i: int) -> bool {
        if i == RIGHT {
            true
        } else if i == MIDDLE {
            self.notch_engaged(RIGHT as int) || self.notch_engaged(MIDDLE as int)
        } else {
            self.notch_engaged(MIDDLE as int)
        }
    }

    /// The machine after the rotors have moved for one key press: every
    /// rotor that steps shows the next position, all at once.
    pub open spec fn step(self) -> EnigmaView {
        EnigmaView {
            window_positions: Seq::new(
                3,
                |i: int|
                    if self.steps(i) {
                        (self.window_positions[i] + 1) % 26
                    } else {
                        self.window_positions[i]
                    },
            ),
            ..self
        }
    }

    /// The way of a signal from right to left through rotor `i` as it
    /// stands.
    pub open spec fn rotor_forward(self, i: int, c: int) -> int {
        self.rotors[i].forward_at(self.window_positions[i], c)
    }

    /// The way of a signal from left to right through rotor `i` as it
    /// stands.
    pub open spec fn rotor_inverse(self, i: int, c: int) -> int {
        self.rotors[i].inverse_at(self.window_positions[i], c)
    }

    /// Where a signal that enters at `c` stands after the `n` rotors
    /// furthest to the right, on its way to the reflector.
    pub open spec fn forward(self, n: int, c: int) -> int {
        let right = self.rotor_forward(RIGHT as int, c);
        let middle = self.rotor_forward(MIDDLE as int, right);
        let left = self.rotor_forward(LEFT as int, middle);
        if n <= 0 {
            c
        } else if n == 1 {
            right
        } else if n == 2 {
            middle
        } else {
            left
        }
    }

    /// Where a signal that leaves the reflector at `c` stands after the `n`
    /// rotors furthest to the left, on its way back.
    pub open spec fn backward(self, n: int, c: int) -> int {
        let left = self.rotor_inverse(LEFT as int, c);
        let middle = self.rotor_inverse(MIDDLE as int, left);
        let right = self.rotor_inverse(RIGHT as int, middle);
        if n <= 0 {
            c
        } else if n == 1 {
            left
        } else if n == 2 {
            middle
        } else {
            right
        }
    }

    /// The position that lights up for the position `c` as the rotors stand:
    /// through the three rotors from right to left, through the reflector,
    /// and back through the rotors from left to right.
    pub open spec fn encipher(self, c: int) -> int {
        self.backward(3, self.reflector[self.forward(3, c)])
    }

    /// What one key press does: the machine after it, and the letter that
    /// lights up. The rotors move before the letter is enciphered.
    pub open spec fn press(self, letter: Alpha) -> (EnigmaView, Alpha) {
        let stepped = self.step();
        (stepped, Alpha::of_index(stepped.encipher(letter.index())))
    }

    /// What typing `letters` does: the machine after the last key press, and
    /// the letters that light up, in the order of the presses.
    pub open spec fn message(self, letters: Seq<Alpha>) -> (EnigmaView, Seq<Alpha>)
        decreases letters.len(),
    {
        if letters.len() == 0 {
            (self, Seq::empty())
        } else {
            let (before, lit) = self.message(letters.drop_last());
            let (after, last) = before.press(letters.last());
            (after, lit.push(last))
        }
    }

    /// The machine with the rotors turned back to where they stood when it
    /// was assembled.
    pub open spec fn reset(self) -> EnigmaView {
        EnigmaView { window_positions: self.original_window_positions, ..self }
    }

    /// Whether the rotors stand where they stood when the machine was
    /// assembled.
    pub open spec fn at_start(self) -> bool {
        self.window_positions == self.original_window_positions
    }

    /// Moving the rotors leaves a well-formed machine well-formed, and
    /// changes nothing but the window positions.
    pub proof fn lemma_step(self)
        requires
            self.wf(),
        ensures
            self.step().wf(),
            self.step().rotors == self.rotors,
            self.step().reflector == self.reflector,
            self.step().original_window_positions == self.original_window_positions,
    {
        let stepped = self.step();
        assert forall|i: int| 0 <= i < 3 implies 0 <= #[trigger] stepped.window_positions[i] < 26 by {
            assert(0 <= self.window_positions[i] < 26);
        }
    }

    /// The signal stays among the twenty-six positions on its way to the
    /// reflector and back, and the way back undoes the way there.
    pub proof fn lemma_paths(self, c: int)
        requires
            self.wf(),
            0 <= c < 26,
        ensures
            forall|n: int| 0 <= #[trigger] self.forward(n, c) < 26,
            forall|n: int| 0 <= #[trigger] self.backward(n, c) < 26,
            self.backward(3, self.forward(3, c)) == c,
            self.forward(3, self.backward(3, c)) == c,
    {
        let left_rotor = self.rotors[LEFT as int];
        let middle_rotor = self.rotors[MIDDLE as int];
        let right_rotor = self.rotors[RIGHT as int];
        let left_at = self.window_positions[LEFT as int];
        let middle_at = self.window_positions[MIDDLE as int];
        let right_at = self.window_positions[RIGHT as int];
        assert(left_rotor.wf() && middle_rotor.wf() && right_rotor.wf());
        assert(0 <= left_at < 26 && 0 <= middle_at < 26 && 0 <= right_at < 26);

        let there_right = right_rotor.forward_at(right_at, c);
        right_rotor.lemma_round_trip_at(right_at, c);
        let there_middle = middle_rotor.forward_at(middle_at, there_right);
        middle_rotor.lemma_round_trip_at(middle_at, there_right);
        let there_left = left_rotor.forward_at(left_at, there_middle);
        left_rotor.lemma_round_trip_at(left_at, there_middle);
        left_rotor.lemma_round_trip_at(left_at, there_left);

        let back_left = left_rotor.inverse_at(left_at, c);
        left_rotor.lemma_round_trip_at(left_at, c);
        let back_middle = middle_rotor.inverse_at(middle_at, back_left);
        middle_rotor.lemma_round_trip_at(middle_at, back_left);
        let back_right = right_rotor.inverse_at(right_at, back_middle);
        right_rotor.lemma_round_trip_at(right_at, back_middle);
        right_rotor.lemma_round_trip_at(right_at, back_right);

        assert(self.forward(3, c) == there_left);
        assert(self.backward(3, c) == back_right);
    }

    /// As the rotors stand, the machine swaps positions in pairs: what a
    /// position is enciphered to is enciphered back to it, and no position
    /// is enciphered to itself.
    pub proof fn lemma_encipher_pairs(self, c: int)
        requires
            self.wf(),
            0 <= c < 26,
        ensures
            0 <= self.encipher(c) < 26,
            self.encipher(self.encipher(c)) == c,
            self.encipher(c) != c,
    {
        let there = self.forward(3, c);
        self.lemma_paths(c);
        assert(0 <= there < 26);
        let turned = self.reflector[there];
        assert(0 <= turned < 26);
        assert(self.reflector[turned] == there);
        assert(turned != there);
        self.lemma_paths(turned);
        let out = self.backward(3, turned);
        assert(out == self.encipher(c));
        assert(0 <= out < 26);
        self.lemma_paths(out);
        assert(self.forward(3, out) == turned);
        if out == c {
            assert(self.forward(3, out) == there);
        }
    }

    /// A key press leaves a well-formed machine well-formed, and the letter
    /// that lights up, pressed as the rotors stood before, lights up the
    /// letter that was pressed.
    pub proof fn lemma_press(self, letter: Alpha)
        requires
            self.wf(),
        ensures
            self.press(letter).0.wf(),
            self.press(letter).0 == self.step(),
            self.press(letter).1.index() == self.step().encipher(letter.index()),
            self.press(self.press(letter).1) == (self.step(), letter),
            self.press(letter).1 != letter,
    {
        self.lemma_step();
        letter.lemma_index();
        let stepped = self.step();
        let out = stepped.encipher(letter.index());
        stepped.lemma_encipher_pairs(letter.index());
        Alpha::lemma_of_index(out);
    }

    /// Typing leaves a well-formed machine well-formed, lights up one
    /// letter for each letter typed, and moves nothing but the rotors.
    pub proof fn lemma_message(self, letters: Seq<Alpha>)
        requires
            self.wf(),
        ensures
            self.message(letters).0.wf(),
            self.message(letters).1.len() == letters.len(),
            self.message(letters).0.rotors == self.rotors,
            self.message(letters).0.reflector == self.reflector,
            self.message(letters).0.original_window_positions == self.original_window_positions,
        decreases letters.len(),
    {
        if letters.len() > 0 {
            self.lemma_message(letters.drop_last());
            let before = self.message(letters.drop_last()).0;
            before.lemma_press(letters.last());
            before.lemma_step();
        }
    }

    /// Typing one more letter is typing the others and then pressing its
    /// key.
    pub proof fn lemma_message_push(self, letters: Seq<Alpha>, letter: Alpha)
        ensures
            self.message(letters.push(letter)) == ({
                let (before, lit) = self.message(letters);
                let (after, last) = before.press(letter);
                (after, lit.push(last))
            }),
    {
        assert(letters.push(letter).drop_last() =~= letters);
    }

    /// How the rotors move does not depend on the letters typed: typing
    /// what lit up, from where the rotors stood, moves them alike and
    /// lights up what was typed.
    pub proof fn lemma_message_reciprocal(self, letters: Seq<Alpha>)
        requires
            self.wf(),
        ensures
            self.message(self.message(letters).1) == (self.message(letters).0, letters),
        decreases letters.len(),
    {
        let (after, lit) = self.message(letters);
        if letters.len() == 0 {
            } else {
            let earlier = letters.drop_last();
            let (before, lit_earlier) = self.message(earlier);
            let (_, last) = before.press(letters.last());
            self.lemma_message_reciprocal(earlier);
            self.lemma_message(earlier);
            before.lemma_press(letters.last());
            self.lemma_message_push(lit_earlier, last);
            assert(earlier.push(letters.last()) =~= letters);
        }
    }

    /// Enciphering a text, turning the rotors back to where the machine
    /// started, and enciphering what came out gives the text back.
    pub proof fn lemma_reciprocal(self, plaintext: Seq<Alpha>)
        requires
            self.wf(),
            self.at_start(),
        ensures
            ({
                let (after, ciphertext) = self.message(plaintext);
                after.reset().message(ciphertext).1 == plaintext
            }),
    {
        let (after, ciphertext) = self.message(plaintext);
        self.lemma_message(plaintext);
        self.lemma_message_reciprocal(plaintext);
    }

    /// Machines that agree in rotors, reflector and window positions light
    /// up the same letters for the same text, and stand alike afterwards.
    pub proof fn lemma_deterministic(self, other: EnigmaView, letters: Seq<Alpha>)
        requires
            self.rotors =~= other.rotors,
            self.reflector =~= other.reflector,
            self.window_positions =~= other.window_positions,
            self.original_window_positions =~= other.original_window_positions,
        ensures
            self.message(letters) == other.message(letters),
    {
    }
}

/// What has been laid out for a machine that is yet to be assembled.
pub struct EnigmaBuilderView {
    /// The rotor for the slot on the left, once chosen.
    pub left_rotor: Option<RotorView>,
    /// The rotor for the slot in the middle, once chosen.
    pub mid_rotor: Option<RotorView>,
    /// The rotor for the slot on the right, once chosen.
    pub right_rotor: Option<RotorView>,
    /// The positions to show in the windows at the start, once chosen.
    pub window_positions: Option<Seq<int>>,
    /// The pairs of the reflector, once chosen.
    pub reflector: Option<Seq<int>>,
}

impl EnigmaBuilderView {
    /// Nothing laid out yet.
    pub open spec fn empty() -> EnigmaBuilderView {
        EnigmaBuilderView {
            left_rotor: None,
            mid_rotor: None,
            right_rotor: None,
            window_positions: None,
            reflector: None,
        }
    }

    /// Every part that is laid out is well-formed.
    pub open spec fn wf(self) -> bool {
        &&& self.left_rotor matches Some(rotor) ==> rotor.wf()
        &&& self.mid_rotor matches Some(rotor) ==> rotor.wf()
        &&& self.right_rotor matches Some(rotor) ==> rotor.wf()
        &&& self.window_positions matches Some(positions) ==> are_window_positions(positions)
        &&& self.reflector matches Some(reflector) ==> is_permutation(reflector) && is_pairing(
            reflector,
        )
    }

    /// The first part that is still missing, if any: the window positions
    /// are looked for first, then the rotors from left to right, then the
    /// reflector.
    pub open spec fn missing(self) -> Option<Component> {
        if self.window_positions is None {
            Some(Component::WindowPositions)
        } else if self.left_rotor is None {
            Some(Component::LeftRotor)
        } else if self.mid_rotor is None {
            Some(Component::MidRotor)
        } else if self.right_rotor is None {
            Some(Component::RightRotor)
        } else if self.reflector is None {
            Some(Component::Reflector)
        } else {
            None
        }
    }

    /// The machine that the parts make once none is missing. Its rotors
    /// stand at the window positions laid out, which it also keeps as the
    /// ones to turn back to.
    pub open spec fn machine(self) -> EnigmaView
        recommends
            self.missing() is None,
    {
        EnigmaView {
            rotors: seq![self.left_rotor->0, self.mid_rotor->0, self.right_rotor->0],
            window_positions: self.window_positions->0,
            reflector: self.reflector->0,
            original_window_positions: self.window_positions->0,
        }
    }

    /// Well-formed parts, none missing, make a well-formed machine that
    /// stands at its start.
    pub proof fn lemma_machine(self)
        requires
            self.wf(),
            self.missing() is None,
        ensures
            self.machine().wf(),
            self.machine().at_start(),
    {
    }
}

} // verus!
