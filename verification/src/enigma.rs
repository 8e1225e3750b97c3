//! The machine itself: three rotors in their slots, a reflector, and the
//! keyboard.

use vstd::prelude::*;
use crate::alpha::Alpha;
use crate::cipher::CipherChar;
use crate::error::Component;
use crate::error::Error;
use crate::machine::EnigmaBuilderView;
use crate::machine::EnigmaView;
use crate::machine::LEFT;
use crate::machine::MIDDLE;
use crate::machine::RIGHT;
use crate::reflector::Reflector;
use crate::rotor::Rotor;

verus! {

/// A rotor in its slot, with the position that shows in its window.
struct RR {
    rotor: Rotor,
    window_position: CipherChar,
}

/// A machine with three rotors and a reflector.
///
/// Each key press first moves the rotors and then lights the letter that
/// the pressed one is wired to as the rotors stand.
pub struct Enigma {
    rotors: [RR; 3],  // from left to right
    reflector: Reflector,
    original_window_positions: [CipherChar; 3],
}

impl View for Enigma {
    type V = EnigmaView;

    closed spec fn view(&self) -> EnigmaView {
        EnigmaView {
            rotors: Seq::new(3, |i: int| self.rotors[i].rotor@),
            window_positions: Seq::new(3, |i: int| self.rotors[i].window_position as int),
            reflector: self.reflector@,
            original_window_positions: Seq::new(
                3,
                |i: int| self.original_window_positions[i] as int,
            ),
        }
    }
}

impl Enigma {
    /// The invariant of the type: well-formed parts, and a position in
    /// every window.
    pub closed spec fn wf(&self) -> bool {
        &&& forall|i: int| 0 <= i < 3 ==> (#[trigger] self.rotors[i]).rotor.wf()
        &&& self.reflector.wf()
        &&& self@.wf()
    }

    /// A well-formed machine has a well-formed view.
    pub proof fn lemma_wf(&self)
        requires
            self.wf(),
        ensures
            self@.wf(),
    {
    }

    /// Types `cipher_text` on the keyboard, key by key, and returns the
    /// letters that light up, in the same order.
    pub fn message(&mut self, cipher_text: &Vec<Alpha>) -> (lit: Vec<Alpha>)
        requires
            old(self).wf(),
        ensures
            final(self).wf(),
            (final(self)@, lit@) == old(self)@.message(cipher_text@),
    {
        let mut v: Vec<Alpha> = Vec::new();
        let mut i: usize = 0;
        while i < cipher_text.len()
            invariant
                i <= cipher_text@.len(),
                self.wf(),
                (self@, v@) == old(self)@.message(cipher_text@.take(i as int)),
            decreases cipher_text@.len() - i,
        {
            proof {
                old(self)@.lemma_message_push(cipher_text@.take(i as int), cipher_text@[i as int]);
                assert(cipher_text@.take(i as int).push(cipher_text@[i as int]) =~= cipher_text@.take(
                    i + 1,
                ));
            }
            let l = self.press(cipher_text[i]);
            v.push(l);
            i += 1;
        }
        assert(cipher_text@.take(cipher_text@.len() as int) =~= cipher_text@);
        v
    }

    /// Presses the key `letter`: the rotors move, and the letter that
    /// lights up is returned.
    pub fn press(&mut self, letter: Alpha) -> (lit: Alpha)
        requires
            old(self).wf(),
        ensures
            final(self).wf(),
            (final(self)@, lit) == old(self)@.press(letter),
    {
        self.step_and_turnover();
        proof {
            letter.lemma_index();
            self@.lemma_encipher_pairs(letter.index());
        }
        let result = self.encipher(usize::from(letter));
        let lit = Alpha::try_from_usize(result).unwrap();
        lit
    }

    /// Turns the rotors back to where they stood when the machine was
    /// assembled.
    pub fn reset(&mut self)
        requires
            old(self).wf(),
        ensures
            final(self).wf(),
            final(self)@ == old(self)@.reset(),
    {
        let mut i: usize = 0;
        while i < 3
            invariant
                i <= 3,
                self.wf(),
                self@.rotors == old(self)@.rotors,
                self@.reflector == old(self)@.reflector,
                self@.original_window_positions == old(self)@.original_window_positions,
                forall|k: int|
                    0 <= k < i ==> self@.window_positions[k]
                        == old(self)@.original_window_positions[k],
            decreases 3 - i,
        {
            let pos = self.original_window_positions[i];
            assert(pos == self@.original_window_positions[i as int]);
            self.set_window_position(i, pos);
            i += 1;
        }
        assert(self@.window_positions =~= old(self)@.original_window_positions);
    }

    /// The letters that show in the windows, from left to right.
    pub fn get_window_positions(&self) -> (positions: [Alpha; 3])
        requires
            self.wf(),
        ensures
            forall|i: int| 0 <= i < 3 ==> (#[trigger] positions[i]).index() == self@.window_positions[i],
    {
        let mut positions: [Alpha; 3] = [Alpha::A; 3];
        let mut i: usize = 0;
        while i < 3
            invariant
                i <= 3,
                self.wf(),
                forall|k: int|
                    0 <= k < i ==> (#[trigger] positions[k]).index() == self@.window_positions[k],
            decreases 3 - i,
        {
            let shown = self.rotors[i].window_position;
            assert(shown == self@.window_positions[i as int]);
            positions[i] = Alpha::try_from_usize(shown).unwrap();
            i += 1;
        }
        positions
    }

    /// The position that lights up for the position `letter` as the rotors
    /// stand.
    fn encipher(&self, letter: CipherChar) -> (out: CipherChar)
        requires
            self.wf(),
            letter < 26,
        ensures
            out < 26,
            out == self@.encipher(letter as int),
    {
        proof {
            self@.lemma_paths(letter as int);
        }
        let mut cipher_letter = letter;
        let mut n: usize = 0;
        while n < 3
            invariant
                n <= 3,
                self.wf(),
                letter < 26,
                cipher_letter == self@.forward(n as int, letter as int),
                forall|k: int| 0 <= #[trigger] self@.forward(k, letter as int) < 26,
            decreases 3 - n,
        {
            let i = 2 - n;
            cipher_letter = self.rotor_forward(i, cipher_letter);
            n += 1;
        }
        cipher_letter = self.reflector.sub(cipher_letter);
        let ghost turned = cipher_letter as int;
        proof {
            self@.lemma_paths(turned);
        }
        let mut n: usize = 0;
        while n < 3
            invariant
                n <= 3,
                self.wf(),
                0 <= turned < 26,
                cipher_letter == self@.backward(n as int, turned),
                forall|k: int| 0 <= #[trigger] self@.backward(k, turned) < 26,
            decreases 3 - n,
        {
            cipher_letter = self.rotor_inverse(n, cipher_letter);
            n += 1;
        }
        cipher_letter
    }

    /// The way of a signal from right to left through rotor `i` as it
    /// stands.
    fn rotor_forward(&self, i: usize, c: CipherChar) -> (out: CipherChar)
        requires
            self.wf(),
            i < 3,
            c < 26,
        ensures
            out < 26,
            out == self@.rotor_forward(i as int, c as int),
    {
        let wp = self.rotors[i].window_position;
        assert(wp == self@.window_positions[i as int]);
        let wired = self.rotors[i].rotor.sub((c + wp) % 26);
        (wired + 26 - wp) % 26
    }

    /// The way of a signal from left to right through rotor `i` as it
    /// stands.
    fn rotor_inverse(&self, i: usize, c: CipherChar) -> (out: CipherChar)
        requires
            self.wf(),
            i < 3,
            c < 26,
        ensures
            out < 26,
            out == self@.rotor_inverse(i as int, c as int),
    {
        let wp = self.rotors[i].window_position;
        assert(wp == self@.window_positions[i as int]);
        let wired = self.rotors[i].rotor.inverse_sub((c + wp) % 26);
        (wired + 26 - wp) % 26
    }

    /// Moves the rotors for one key press.
    fn step_and_turnover(&mut self)
        requires
            old(self).wf(),
        ensures
            final(self).wf(),
            final(self)@ == old(self)@.step(),
    {
        let mut to_step: [bool; 3] = [false, false, true];
        let mut i: usize = 0;
        while i < 3
            invariant
                i <= 3,
                self.wf(),
                *self == *old(self),
                to_step[RIGHT as int],
                to_step[MIDDLE as int] == ((i > MIDDLE && self@.notch_engaged(MIDDLE as int)) || (i
                    > RIGHT && self@.notch_engaged(RIGHT as int))),
                to_step[LEFT as int] == (i > MIDDLE && self@.notch_engaged(MIDDLE as int)),
            decreases 3 - i,
        {
                assert(self.rotors[i as int].window_position == self@.window_positions[i as int]);
            let engaged = self.rotors[i].rotor.notch_engaged(self.rotors[i].window_position);
            if engaged && i != 0 {
                to_step[i] = true;
                to_step[i - 1] = true;
            }
            i += 1;
        }
        let mut i: usize = 0;
        while i < 3
            invariant
                i <= 3,
                self.wf(),
                old(self).wf(),
                forall|k: int| 0 <= k < 3 ==> to_step[k] == old(self)@.steps(k),
                self@.rotors == old(self)@.rotors,
                self@.reflector == old(self)@.reflector,
                self@.original_window_positions == old(self)@.original_window_positions,
                forall|k: int|
                    0 <= k < i ==> self@.window_positions[k] == old(self)@.step().window_positions[k],
                forall|k: int|
                    i <= k < 3 ==> self@.window_positions[k] == old(self)@.window_positions[k],
            decreases 3 - i,
        {
            if to_step[i] {
                self.step(i);
            }
            i += 1;
        }
        assert(self@.window_positions =~= old(self)@.step().window_positions);
    }

    /// Moves rotor `rotor_index` on by one position.
    fn step(&mut self, rotor_index: usize)
        requires
            old(self).wf(),
            rotor_index < 3,
        ensures
            final(self).wf(),
            final(self)@ == (EnigmaView {
                window_positions: old(self)@.window_positions.update(
                    rotor_index as int,
                    (old(self)@.window_positions[rotor_index as int] + 1) % 26,
                ),
                ..old(self)@
            }),
    {
        let shown = self.rotors[rotor_index].window_position;
        self.set_window_position(rotor_index, (shown + 1) % 26);
    }

    /// Turns rotor `rotor_index` so that `position` shows in its window.
    fn set_window_position(&mut self, rotor_index: usize, position: CipherChar)
        requires
            old(self).wf(),
            rotor_index < 3,
            position < 26,
        ensures
            final(self).wf(),
            final(self)@ == (EnigmaView {
                window_positions: old(self)@.window_positions.update(
                    rotor_index as int,
                    position as int,
                ),
                ..old(self)@
            }),
    {
        self.rotors[rotor_index].window_position = position;
        assert(self@.rotors =~= old(self)@.rotors);
        assert(self@.window_positions =~= old(self)@.window_positions.update(
            rotor_index as int,
            position as int,
        ));
    }
}

/// Collects the parts of a machine and assembles it once all are there.
pub struct EnigmaBuilder {
    left_rotor: Option<Rotor>,
    mid_rotor: Option<Rotor>,
    right_rotor: Option<Rotor>,
    window_positions: Option<[CipherChar; 3]>,
    reflector: Option<Reflector>,
}

impl View for EnigmaBuilder {
    type V = EnigmaBuilderView;

    closed spec fn view(&self) -> EnigmaBuilderView {
        EnigmaBuilderView {
            left_rotor: match self.left_rotor {
                Some(rotor) => Some(rotor@),
                None => None,
            },
            mid_rotor: match self.mid_rotor {
                Some(rotor) => Some(rotor@),
                None => None,
            },
            right_rotor: match self.right_rotor {
                Some(rotor) => Some(rotor@),
                None => None,
            },
            window_positions: match self.window_positions {
                Some(positions) => Some(Seq::new(3, |i: int| positions[i] as int)),
                None => None,
            },
            reflector: match self.reflector {
                Some(reflector) => Some(reflector@),
                None => None,
            },
        }
    }
}

impl EnigmaBuilder {
    /// The invariant of the type: every part that was supplied is
    /// well-formed.
    pub closed spec fn wf(&self) -> bool {
        &&& self.left_rotor matches Some(rotor) ==> rotor.wf()
        &&& self.mid_rotor matches Some(rotor) ==> rotor.wf()
        &&& self.right_rotor matches Some(rotor) ==> rotor.wf()
        &&& self.reflector matches Some(reflector) ==> reflector.wf()
        &&& self@.wf()
    }

    /// A well-formed builder has a well-formed view.
    pub proof fn lemma_wf(&self)
        requires
            self.wf(),
        ensures
            self@.wf(),
    {
    }

    /// A builder with no part supplied yet.
    pub fn new() -> (builder: EnigmaBuilder)
        ensures
            builder.wf(),
            builder@ == EnigmaBuilderView::empty(),
    {
        EnigmaBuilder {
            left_rotor: None,
            mid_rotor: None,
            right_rotor: None,
            window_positions: None,
            reflector: None,
        }
    }

    /// Puts `rotor` into the slot on the left.
    pub fn left_rotor(self, rotor: Rotor) -> (builder: EnigmaBuilder)
        requires
            self.wf(),
            rotor.wf(),
        ensures
            builder.wf(),
            builder@ == (EnigmaBuilderView { left_rotor: Some(rotor@), ..self@ }),
    {
        proof {
            rotor.lemma_wf();
        }
        let mut builder = self;
        builder.left_rotor = Some(rotor);
        builder
    }

    /// Puts `rotor` into the slot in the middle.
    pub fn mid_rotor(self, rotor: Rotor) -> (builder: EnigmaBuilder)
        requires
            self.wf(),
            rotor.wf(),
        ensures
            builder.wf(),
            builder@ == (EnigmaBuilderView { mid_rotor: Some(rotor@), ..self@ }),
    {
        proof {
            rotor.lemma_wf();
        }
        let mut builder = self;
        builder.mid_rotor = Some(rotor);
        builder
    }

    /// Puts `rotor` into the slot on the right.
    pub fn right_rotor(self, rotor: Rotor) -> (builder: EnigmaBuilder)
        requires
            self.wf(),
            rotor.wf(),
        ensures
            builder.wf(),
            builder@ == (EnigmaBuilderView { right_rotor: Some(rotor@), ..self@ }),
    {
        proof {
            rotor.lemma_wf();
        }
        let mut builder = self;
        builder.right_rotor = Some(rotor);
        builder
    }

    /// Puts `reflector` at the left end of the rotors.
    pub fn reflector(self, reflector: Reflector) -> (builder: EnigmaBuilder)
        requires
            self.wf(),
            reflector.wf(),
        ensures
            builder.wf(),
            builder@ == (EnigmaBuilderView { reflector: Some(reflector@), ..self@ }),
    {
        proof {
            reflector.lemma_wf();
        }
        let mut builder = self;
        builder.reflector = Some(reflector);
        builder
    }

    /// Chooses the letters that show in the windows at the start, from
    /// left to right.
    pub fn window_positions(self, positions: [Alpha; 3]) -> (builder: EnigmaBuilder)
        requires
            self.wf(),
        ensures
            builder.wf(),
            builder@ == (EnigmaBuilderView {
                window_positions: Some(Seq::new(3, |i: int| positions[i].index())),
                ..self@
            }),
    {
        let mut window_positions: [CipherChar; 3] = [0; 3];
        let mut i: usize = 0;
        while i < 3
            invariant
                i <= 3,
                forall|k: int| 0 <= k < i ==> #[trigger] window_positions[k] == positions[k].index(),
            decreases 3 - i,
        {
            proof {
                positions[i as int].lemma_index();
            }
            window_positions[i] = usize::from(positions[i]);
            i += 1;
        }
        proof {
            assert(Seq::new(3, |i: int| window_positions[i] as int) =~= Seq::new(
                3,
                |i: int| positions[i].index(),
            ));
        }
        let mut builder = self;
        builder.window_positions = Some(window_positions);
        builder
    }

    /// Assembles the machine, or names the first part that is missing.
    pub fn build(self) -> (r: Result<Enigma, Error>)
        requires
            self.wf(),
        ensures
            r is Ok <==> self@.missing() is None,
            r matches Ok(enigma) ==> enigma.wf() && enigma@ == self@.machine(),
            r matches Err(error) ==> self@.missing() matches Some(part) && error
                == Error::MissingComponent(part),
    {
        let window_positions = match self.window_positions {
            Some(r) => r,
            None => return Err(Error::MissingComponent(Component::WindowPositions)),
        };
        let left_rotor = match self.left_rotor {
            Some(r) => RR { rotor: r, window_position: window_positions[0] },
            None => return Err(Error::MissingComponent(Component::LeftRotor)),
        };
        let mid_rotor = match self.mid_rotor {
            Some(r) => RR { rotor: r, window_position: window_positions[1] },
            None => return Err(Error::MissingComponent(Component::MidRotor)),
        };
        let right_rotor = match self.right_rotor {
            Some(r) => RR { rotor: r, window_position: window_positions[2] },
            None => return Err(Error::MissingComponent(Component::RightRotor)),
        };
        let reflector = match self.reflector {
            Some(r) => r,
            None => return Err(Error::MissingComponent(Component::Reflector)),
        };
        let enigma = Enigma {
            rotors: [left_rotor, mid_rotor, right_rotor],
            reflector: reflector,
            original_window_positions: window_positions,
        };
        proof {
            let machine = self@.machine();
            assert(enigma@.rotors =~= machine.rotors);
            assert(enigma@.window_positions =~= machine.window_positions);
            self@.lemma_machine();
        }
        Ok(enigma)
    }
}

} // verus!
