//! The alphabet of the machine: twenty-six letters, each standing for an
//! index in `0..26`.

use vstd::prelude::*;

verus! {

/// One letter of the machine's alphabet.
#[derive(Debug, PartialEq, Eq, Clone, Copy, Structural)]
pub enum Alpha {
    A,
    B,
    C,
    D,
    E,
    F,
    G,
    H,
    I,
    J,
    K,
    L,
    M,
    N,
    O,
    P,
    Q,
    R,
    S,
    T,
    U,
    V,
    W,
    X,
    Y,
    Z,
}

/// What `try_from_char` and `try_from_usize` answer to anything that is no
/// letter.
pub const NOT_A_LETTER: &'static str = "oh noes";

/// Whether `c` is one of the letters `A` to `Z`, in either case.
pub open spec fn is_letter(c: char) -> bool {
    ('A' <= c && c <= 'Z') || ('a' <= c && c <= 'z')
}

/// The index in `0..26` that a letter stands for, whatever its case.
pub open spec fn letter_index(c: char) -> int
    recommends
        is_letter(c),
{
    if 'a' <= c && c <= 'z' {
        c as int - 'a' as int
    } else {
        c as int - 'A' as int
    }
}

/// The letters among the characters of `s`, in the order of `s`.
pub open spec fn letters_of(s: Seq<char>) -> Seq<Alpha> {
    s.filter(|c: char| is_letter(c)).map_values(|c: char| Alpha::of_index(letter_index(c)))
}

/// The upper-case characters that spell `v`.
pub open spec fn chars_of(v: Seq<Alpha>) -> Seq<char> {
    v.map_values(|a: Alpha| a.to_char())
}

impl Alpha {
    /// The position of the letter in the alphabet, `A` being 0 and `Z` 25.
    pub open spec fn index(self) -> int {
        match self {
            Alpha::A => 0,
            Alpha::B => 1,
            Alpha::C => 2,
            Alpha::D => 3,
            Alpha::E => 4,
            Alpha::F => 5,
            Alpha::G => 6,
            Alpha::H => 7,
            Alpha::I => 8,
            Alpha::J => 9,
            Alpha::K => 10,
            Alpha::L => 11,
            Alpha::M => 12,
            Alpha::N => 13,
            Alpha::O => 14,
            Alpha::P => 15,
            Alpha::Q => 16,
            Alpha::R => 17,
            Alpha::S => 18,
            Alpha::T => 19,
            Alpha::U => 20,
            Alpha::V => 21,
            Alpha::W => 22,
            Alpha::X => 23,
            Alpha::Y => 24,
            Alpha::Z => 25,
        }
    }

    /// The letter at position `i` of the alphabet.
    pub open spec fn of_index(i: int) -> Alpha
        recommends
            0 <= i < 26,
    {
        choose|a: Alpha| a.index() == i
    }

    /// The upper-case character that the letter is written as.
    pub open spec fn to_char(self) -> char {
        ('A' as int + self.index()) as char
    }

    /// Every letter has an index below 26, and is the one letter with it.
    pub proof fn lemma_index(self)
        ensures
            0 <= self.index() < 26,
            Alpha::of_index(self.index()) == self,
    {
    }

    /// Every index below 26 is that of a letter.
    pub proof fn lemma_of_index(i: int)
        requires
            0 <= i < 26,
        ensures
            Alpha::of_index(i).index() == i,
    {
        let witness = if i < 13 {
            if i < 6 {
                if i == 0 {
                    Alpha::A
                } else if i == 1 {
                    Alpha::B
                } else if i == 2 {
                    Alpha::C
                } else if i == 3 {
                    Alpha::D
                } else if i == 4 {
                    Alpha::E
                } else {
                    Alpha::F
                }
            } else {
                if i == 6 {
                    Alpha::G
                } else if i == 7 {
                    Alpha::H
                } else if i == 8 {
                    Alpha::I
                } else if i == 9 {
                    Alpha::J
                } else if i == 10 {
                    Alpha::K
                } else if i == 11 {
                    Alpha::L
                } else {
                    Alpha::M
                }
            }
        } else {
            if i < 19 {
                if i == 13 {
                    Alpha::N
                } else if i == 14 {
                    Alpha::O
                } else if i == 15 {
                    Alpha::P
                } else if i == 16 {
                    Alpha::Q
                } else if i == 17 {
                    Alpha::R
                } else {
                    Alpha::S
                }
            } else {
                if i == 19 {
                    Alpha::T
                } else if i == 20 {
                    Alpha::U
                } else if i == 21 {
                    Alpha::V
                } else if i == 22 {
                    Alpha::W
                } else if i == 23 {
                    Alpha::X
                } else if i == 24 {
                    Alpha::Y
                } else {
                    Alpha::Z
                }
            }
        };
        assert(witness.index() == i);
    }

    /// Reads the letters out of `s` and passes over every other character.
    pub fn from_string(s: &str) -> (v: Vec<Alpha>)
        ensures
            v@ == letters_of(s@),
    {
        let n = s.unicode_len();
        let mut v: Vec<Alpha> = Vec::new();
        let mut i: usize = 0;
        while i < n
            invariant
                n == s@.len(),
                i <= n,
                v@ == letters_of(s@.take(i as int)),
            decreases n - i,
        {
            let c = s.get_char(i);
            proof {
                let keep = |c: char| is_letter(c);
                assert(s@.take(i + 1) =~= s@.take(i as int).push(c));
                s@.take(i as int).lemma_filter_push(c, keep);
            }
            match Alpha::try_from_char(c) {
                Ok(a) => {
                    v.push(a);
                },
                Err(_) => {},
            }
            i += 1;
        }
        assert(s@.take(n as int) =~= s@);
        v
    }

    /// The letter that `c` is, in either case.
    pub fn try_from_char(c: char) -> (r: Result<Alpha, &'static str>)
        ensures
            r is Ok <==> is_letter(c),
            r matches Ok(a) ==> a.index() == letter_index(c),
            r matches Err(e) ==> e@ == NOT_A_LETTER@,
    {
        if 'A' <= c && c <= 'Z' {
            Alpha::try_from_usize(c as usize - 'A' as usize)
        } else if 'a' <= c && c <= 'z' {
            Alpha::try_from_usize(c as usize - 'a' as usize)
        } else {
            Err(NOT_A_LETTER)
        }
    }

    /// The letter at position `n` of the alphabet.
    pub fn try_from_usize(n: usize) -> (r: Result<Alpha, &'static str>)
        ensures
            r is Ok <==> n < 26,
            r matches Ok(a) ==> a.index() == n,
            r matches Err(e) ==> e@ == NOT_A_LETTER@,
    {
        match n {
            0 => Ok(Alpha::A),
            1 => Ok(Alpha::B),
            2 => Ok(Alpha::C),
            3 => Ok(Alpha::D),
            4 => Ok(Alpha::E),
            5 => Ok(Alpha::F),
            6 => Ok(Alpha::G),
            7 => Ok(Alpha::H),
            8 => Ok(Alpha::I),
            9 => Ok(Alpha::J),
            10 => Ok(Alpha::K),
            11 => Ok(Alpha::L),
            12 => Ok(Alpha::M),
            13 => Ok(Alpha::N),
            14 => Ok(Alpha::O),
            15 => Ok(Alpha::P),
            16 => Ok(Alpha::Q),
            17 => Ok(Alpha::R),
            18 => Ok(Alpha::S),
            19 => Ok(Alpha::T),
            20 => Ok(Alpha::U),
            21 => Ok(Alpha::V),
            22 => Ok(Alpha::W),
            23 => Ok(Alpha::X),
            24 => Ok(Alpha::Y),
            25 => Ok(Alpha::Z),
            _ => Err(NOT_A_LETTER),
        }
    }
}

impl vstd::std_specs::convert::FromSpecImpl<Alpha> for usize {
    open spec fn obeys_from_spec() -> bool {
        true
    }

    open spec fn from_spec(letter: Alpha) -> usize {
        letter.index() as usize
    }
}

impl From<Alpha> for usize {
    fn from(letter: Alpha) -> (n: usize) {
        match letter {
            Alpha::A => 0,
            Alpha::B => 1,
            Alpha::C => 2,
            Alpha::D => 3,
            Alpha::E => 4,
            Alpha::F => 5,
            Alpha::G => 6,
            Alpha::H => 7,
            Alpha::I => 8,
            Alpha::J => 9,
            Alpha::K => 10,
            Alpha::L => 11,
            Alpha::M => 12,
            Alpha::N => 13,
            Alpha::O => 14,
            Alpha::P => 15,
            Alpha::Q => 16,
            Alpha::R => 17,
            Alpha::S => 18,
            Alpha::T => 19,
            Alpha::U => 20,
            Alpha::V => 21,
            Alpha::W => 22,
            Alpha::X => 23,
            Alpha::Y => 24,
            Alpha::Z => 25,
        }
    }
}

impl vstd::std_specs::convert::FromSpecImpl<Alpha> for char {
    open spec fn obeys_from_spec() -> bool {
        true
    }

    open spec fn from_spec(letter: Alpha) -> char {
        letter.to_char()
    }
}

impl From<Alpha> for char {
    fn from(letter: Alpha) -> (c: char) {
        match letter {
            Alpha::A => 'A',
            Alpha::B => 'B',
            Alpha::C => 'C',
            Alpha::D => 'D',
            Alpha::E => 'E',
            Alpha::F => 'F',
            Alpha::G => 'G',
            Alpha::H => 'H',
            Alpha::I => 'I',
            Alpha::J => 'J',
            Alpha::K => 'K',
            Alpha::L => 'L',
            Alpha::M => 'M',
            Alpha::N => 'N',
            Alpha::O => 'O',
            Alpha::P => 'P',
            Alpha::Q => 'Q',
            Alpha::R => 'R',
            Alpha::S => 'S',
            Alpha::T => 'T',
            Alpha::U => 'U',
            Alpha::V => 'V',
            Alpha::W => 'W',
            Alpha::X => 'X',
            Alpha::Y => 'Y',
            Alpha::Z => 'Z',
        }
    }
}

/// `String::push` of the standard library: the string afterwards is the
/// string before with `c` added at its end.
pub assume_specification[ String::push ](s: &mut String, c: char)
    ensures
        final(s)@ == old(s)@.push(c),
;

/// Spells the letters of `v` in upper case.
pub fn to_string(v: &[Alpha]) -> (s: String)
    ensures
        s@ == chars_of(v@),
{
    let mut s = String::new();
    let mut i: usize = 0;
    while i < v.len()
        invariant
            i <= v@.len(),
            s@ == chars_of(v@.take(i as int)),
        decreases v@.len() - i,
    {
        let c = char::from(v[i]);
        s.push(c);
        i += 1;
    }
    s
}

} // verus!
