//! Substitution tables: a wiring of the twenty-six positions, read from a
//! string of letters and kept together with its inverse.

use vstd::prelude::*;
use crate::alpha::is_letter;
use crate::alpha::letter_index;
use crate::error::Error;
use crate::permutation::inverse_table;
use crate::permutation::is_involution;
use crate::permutation::is_permutation;
use crate::permutation::lemma_inverse_table;
use crate::permutation::lemma_inverse_unique;

verus! {

/// A position of the alphabet: `0` for `A` up to `25` for `Z`.
pub type CipherChar = usize;

/// The positions that the letters of `s` stand for, one for one.
pub open spec fn decode(s: Seq<char>) -> Seq<int> {
    s.map_values(|c: char| letter_index(c))
}

/// The entries of an array of positions as mathematical integers.
pub open spec fn table_view(a: [CipherChar; 26]) -> Seq<int> {
    Seq::new(26, |i: int| a[i] as int)
}

/// A substitution cipher over the alphabet.
///
/// The index into the table is the position that goes in, the entry there
/// the position that comes out. No position comes out twice, and the table
/// that leads back is kept beside it.
#[derive(Debug, Clone, Copy)]
pub struct Cipher {
    table: [CipherChar; 26],
    inverse: [CipherChar; 26],
}

impl View for Cipher {
    type V = Seq<int>;

    /// The table: at each position, the position it is wired to.
    closed spec fn view(&self) -> Seq<int> {
        table_view(self.table)
    }
}

impl Cipher {
    /// The table that is kept for the way back.
    pub closed spec fn inverse_view(&self) -> Seq<int> {
        table_view(self.inverse)
    }

    /// The invariant of the type: the table is a permutation and the table
    /// kept beside it is its inverse.
    pub open spec fn wf(&self) -> bool {
        &&& is_permutation(self@)
        &&& self.inverse_view() == inverse_table(self@)
    }

    /// Where the wiring leads from position `c`.
    pub fn substitute(&self, c: CipherChar) -> (out: CipherChar)
        requires
            self.wf(),
            c < 26,
        ensures
            out < 26,
            out == self@[c as int],
            inverse_table(self@)[out as int] == c,
    {
        proof {
            lemma_inverse_table(self@);
        }
        assert(0 <= self@[c as int] < 26);
        self.table[c]
    }

    /// The position from which the wiring leads to `c`.
    pub fn inverse_substitute(&self, c: CipherChar) -> (out: CipherChar)
        requires
            self.wf(),
            c < 26,
        ensures
            out < 26,
            out == inverse_table(self@)[c as int],
            self@[out as int] == c,
    {
        proof {
            lemma_inverse_table(self@);
            assert(0 <= self.inverse_view()[c as int] < 26);
        }
        self.inverse[c]
    }

    /// The table as an array, position by position.
    pub fn table(&self) -> (t: [CipherChar; 26])
        ensures
            table_view(t) == self@,
    {
        self.table
    }

    /// Following the wiring and then finding the way back, or the other way
    /// round, ends at the position where it began.
    pub proof fn lemma_round_trip(&self, x: int)
        requires
            self.wf(),
            0 <= x < 26,
        ensures
            0 <= self@[x] < 26,
            0 <= inverse_table(self@)[x] < 26,
            self@[inverse_table(self@)[x]] == x,
            inverse_table(self@)[self@[x]] == x,
    {
        lemma_inverse_table(self@);
    }
}

/// The position that the letter `c` stands for, in either case.
pub fn from_char(c: char) -> (n: CipherChar)
    requires
        is_letter(c),
    ensures
        n < 26,
        n == letter_index(c),
{
    if 'a' <= c && c <= 'z' {
        c as usize - 'a' as usize
    } else {
        c as usize - 'A' as usize
    }
}

/// The upper-case letter that stands at position `n`.
pub fn to_char(n: CipherChar) -> (c: char)
    requires
        n < 26,
    ensures
        c == ('A' as int + n) as char,
        'A' <= c && c <= 'Z',
        letter_index(c) == n,
{
    (n as u8 + 'A' as u8) as char
}

/// The table that leads back from each entry of `wiring` to its index.
fn inverse_wiring(wiring: &[CipherChar; 26]) -> (inverse: [CipherChar; 26])
    requires
        is_permutation(table_view(*wiring)),
    ensures
        table_view(inverse) == inverse_table(table_view(*wiring)),
{
    let ghost t = table_view(*wiring);
    let mut inverse: [CipherChar; 26] = [0; 26];
    let mut i: usize = 0;
    while i < 26
        invariant
            i <= 26,
            t == table_view(*wiring),
            is_permutation(t),
            forall|k: int| 0 <= k < i ==> inverse[#[trigger] t[k]] == k,
        decreases 26 - i,
    {
        let v = wiring[i];
        assert(t[i as int] == v);
        inverse[v] = i;
        assert forall|k: int| 0 <= k < i + 1 implies inverse[#[trigger] t[k]] == k by {
            if k < i {
                assert(t[k] != t[i as int]);
            }
        }
        i += 1;
    }
    proof {
        let inv = table_view(inverse);
        assert forall|k: int| 0 <= k < 26 implies inv[#[trigger] t[k]] == k by {
            assert(inverse[t[k]] == k);
        }
        lemma_inverse_unique(t, inv);
    }
    inverse
}

/// Reads a wiring from its twenty-six letters: the letter at position `i`
/// says where position `i` is wired to.
///
/// A string of another length is an `InvalidLength`, one that names a
/// letter twice a `DuplicateMapping`. A string of the right length holds
/// letters only.
pub fn from_string(cipher_str: &str) -> (r: Result<Cipher, Error>)
    requires
        cipher_str@.len() == 26 ==> forall|i: int| 0 <= i < 26 ==> is_letter(#[trigger] cipher_str@[i]),
    ensures
        r is Ok <==> cipher_str@.len() == 26 && decode(cipher_str@).no_duplicates(),
        r matches Ok(cipher) ==> cipher.wf() && cipher@ == decode(cipher_str@),
        r is Err ==> r == Err::<Cipher, Error>(
            if cipher_str@.len() != 26 {
                Error::InvalidLength
            } else {
                Error::DuplicateMapping
            },
        ),
{
    if cipher_str.unicode_len() != 26 {
        return Err(Error::InvalidLength);
    }
    let ghost d = decode(cipher_str@);
    let mut used_chars: [bool; 26] = [false; 26];
    let mut cipher: [CipherChar; 26] = [0; 26];
    let mut i: usize = 0;
    while i < 26
        invariant
            i <= 26,
            cipher_str@.len() == 26,
            d == decode(cipher_str@),
            forall|k: int| 0 <= k < 26 ==> is_letter(#[trigger] cipher_str@[k]),
            forall|k: int| 0 <= k < i ==> cipher[k] == #[trigger] d[k],
            forall|k: int, l: int| 0 <= k < l < i ==> #[trigger] d[k] != #[trigger] d[l],
            forall|x: int|
                0 <= x < 26 ==> (#[trigger] used_chars[x] <==> exists|k: int|
                    0 <= k < i && d[k] == x),
        decreases 26 - i,
    {
        let cipher_char = from_char(cipher_str.get_char(i));
        if used_chars[cipher_char] {
            proof {
                let k = choose|k: int| 0 <= k < i && d[k] == cipher_char as int;
                assert(d[k] == d[i as int] && k != i);
            }
            return Err(Error::DuplicateMapping);
        }
        used_chars[cipher_char] = true;
        cipher[i] = cipher_char;
        assert forall|x: int| 0 <= x < 26 implies (#[trigger] used_chars[x] <==> exists|k: int|
            0 <= k < i + 1 && d[k] == x) by {
            if x == cipher_char {
                assert(d[i as int] == x);
            }
        }
        i += 1;
    }
    proof {
        assert(table_view(cipher) =~= d);
    }
    let inverse = inverse_wiring(&cipher);
    Ok(Cipher { table: cipher, inverse })
}

/// Whether `cipher` swaps positions in pairs: looking a position up twice
/// leads back to it.
pub fn is_pairs(cipher: Cipher) -> (b: bool)
    requires
        cipher.wf(),
    ensures
        b == is_involution(cipher@),
{
    let mut i: usize = 0;
    while i < 26
        invariant
            i <= 26,
            cipher.wf(),
            forall|k: int| 0 <= k < i ==> cipher@[#[trigger] cipher@[k]] == k,
        decreases 26 - i,
    {
        let v = cipher.table[i];
        assert(cipher@[i as int] == v);
        if cipher.table[v] != i {
            return false;
        }
        i += 1;
    }
    true
}

} // verus!
