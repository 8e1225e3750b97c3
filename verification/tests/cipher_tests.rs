use enigma::cipher::from_char;
use enigma::cipher::from_string;
use enigma::cipher::is_pairs;
use enigma::cipher::to_char;
use enigma::Error;

#[test]
fn char_conversions() {
    assert_eq!('A', to_char(from_char('a')));
    assert_eq!('A', to_char(from_char('A')));
}

#[test]
fn cipher_creation() {
    assert_eq!(
        [0, 1, 2, 3, 4, 5, 6, 7, 8, 9, 10, 11, 12, 13, 14, 15, 16, 17, 18, 19, 20, 21, 22, 23, 24, 25],
        from_string("ABCDEFGHIJKLMNOPQRSTUVWXYZ").unwrap().table()
    );
}

#[test]
fn cipher_of_pairs() {
    assert!(is_pairs(from_string("YRUHQSLDPXNGOKMIEBFZCWVJAT").unwrap()));
    assert!(!is_pairs(from_string("RYUHQSLDPXNGOKMIEBFZCWVJAT").unwrap()));
}

#[test]
fn char_conversions_cover_the_alphabet() {
    assert_eq!(0, from_char('A'));
    assert_eq!(25, from_char('Z'));
    assert_eq!(0, from_char('a'));
    assert_eq!(25, from_char('z'));
    assert_eq!(12, from_char('m'));
    assert_eq!('A', to_char(0));
    assert_eq!('N', to_char(13));
    assert_eq!('Z', to_char(25));
    for n in 0..26 {
        assert_eq!(n, from_char(to_char(n)));
    }
}

#[test]
fn cipher_creation_reads_either_case() {
    let upper = from_string("EKMFLGDQVZNTOWYHXUSPAIBRCJ").unwrap();
    let lower = from_string("ekmflgdqvzntowyhxuspaibrcj").unwrap();
    assert_eq!(upper.table(), lower.table());
    assert_eq!(
        [4, 10, 12, 5, 11, 6, 3, 16, 21, 25, 13, 19, 14, 22, 24, 7, 23, 20, 18, 15, 0, 8, 1, 17, 2, 9],
        upper.table()
    );
}

#[test]
fn duplicate_letter_is_a_duplicate_mapping() {
    assert_eq!(
        Some(Error::DuplicateMapping),
        from_string("ABCDEFGHIJKAMNOPQRSTUVWXYZ").err()
    );
    assert_eq!(
        Some(Error::DuplicateMapping),
        from_string("ABCDEFGHIJKLMNOPQRSTUVWXYa").err()
    );
    assert_eq!(
        Some(Error::DuplicateMapping),
        from_string("AAAAAAAAAAAAAAAAAAAAAAAAAA").err()
    );
}

#[test]
fn wrong_length_is_an_invalid_length() {
    assert_eq!(
        Some(Error::InvalidLength),
        from_string("ABCDEFGHIJKLMNOPQRSTUVWXY").err()
    );
    assert_eq!(
        Some(Error::InvalidLength),
        from_string("ABCDEFGHIJKLMNOPQRSTUVWXYZA").err()
    );
    assert_eq!(Some(Error::InvalidLength), from_string("").err());
    assert_eq!(Some(Error::InvalidLength), from_string("AA").err());
}

#[test]
fn substitute_follows_the_table() {
    let cipher = from_string("EKMFLGDQVZNTOWYHXUSPAIBRCJ").unwrap();
    assert_eq!(4, cipher.substitute(0));
    assert_eq!(10, cipher.substitute(1));
    assert_eq!(9, cipher.substitute(25));
    assert_eq!(20, cipher.inverse_substitute(0));
    assert_eq!(0, cipher.inverse_substitute(4));
    assert_eq!(25, cipher.inverse_substitute(9));
}

#[test]
fn substitute_and_inverse_undo_each_other() {
    let wirings = [
        "EKMFLGDQVZNTOWYHXUSPAIBRCJ",
        "AJDKSIRUXBLHWTMCQGZNPYFVOE",
        "BDFHJLCPRTXVZNYEIWGAKMUSQO",
        "ESOVPZJAYQUIRHXLNFTGKDCMWB",
        "VZBRGITYUPSDNHLXAWMJQOFECK",
        "YRUHQSLDPXNGOKMIEBFZCWVJAT",
        "FVPJIAOYEDRZXWGCTKUQSBNMHL",
        "ABCDEFGHIJKLMNOPQRSTUVWXYZ",
    ];
    for wiring in wirings {
        let cipher = from_string(wiring).unwrap();
        for x in 0..26 {
            assert_eq!(x, cipher.substitute(cipher.inverse_substitute(x)));
            assert_eq!(x, cipher.inverse_substitute(cipher.substitute(x)));
        }
    }
}

#[test]
fn identity_and_swaps_are_pairs_but_cycles_are_not() {
    assert!(is_pairs(from_string("ABCDEFGHIJKLMNOPQRSTUVWXYZ").unwrap()));
    assert!(is_pairs(from_string("BACDEFGHIJKLMNOPQRSTUVWXYZ").unwrap()));
    assert!(is_pairs(from_string("FVPJIAOYEDRZXWGCTKUQSBNMHL").unwrap()));
    assert!(!is_pairs(from_string("BCADEFGHIJKLMNOPQRSTUVWXYZ").unwrap()));
    assert!(!is_pairs(from_string("EKMFLGDQVZNTOWYHXUSPAIBRCJ").unwrap()));
}

#[test]
fn error_messages() {
    assert_eq!("String length must be 26", Error::InvalidLength.message());
    assert_eq!(
        "Cipher string must not contain duplicate characters",
        Error::DuplicateMapping.message()
    );
    assert_eq!("Reflector cipher must be in pairs", Error::InvalidReflector.message());
}
