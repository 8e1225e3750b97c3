use enigma::cipher::from_string;
use enigma::reflector::Reflector;
use enigma::Error;
use enigma::Reflectors;

#[test]
fn simple_reflector() {
    let cipher = from_string("YRUHQSLDPXNGOKMIEBFZCWVJAT").unwrap();
    let reflector = Reflector::new(cipher).unwrap();

    assert_eq!(24, reflector.sub(0));
    assert_eq!(0, reflector.sub(24));
}

#[test]
fn wiring_that_is_no_involution_is_an_invalid_reflector() {
    let cipher = from_string("RYUHQSLDPXNGOKMIEBFZCWVJAT").unwrap();
    assert_eq!(Some(Error::InvalidReflector), Reflector::new(cipher).err());

    let cipher = from_string("EKMFLGDQVZNTOWYHXUSPAIBRCJ").unwrap();
    assert_eq!(Some(Error::InvalidReflector), Reflector::new(cipher).err());
}

#[test]
fn wiring_that_leaves_a_letter_in_place_is_an_invalid_reflector() {
    let cipher = from_string("ABCDEFGHIJKLMNOPQRSTUVWXYZ").unwrap();
    assert_eq!(Some(Error::InvalidReflector), Reflector::new(cipher).err());

    let cipher = from_string("BACDEFGHIJKLMNOPQRSTUVWXYZ").unwrap();
    assert_eq!(Some(Error::InvalidReflector), Reflector::new(cipher).err());
}

#[test]
fn reflectors_swap_letters_in_pairs() {
    let reflectors = Reflectors::new();
    for reflector in [reflectors.b, reflectors.c] {
        for x in 0..26 {
            assert!(reflector.sub(x) < 26);
            assert_eq!(x, reflector.sub(reflector.sub(x)));
            assert_ne!(x, reflector.sub(x));
        }
    }
}

#[test]
fn preset_reflectors_have_the_issued_wirings() {
    let reflectors = Reflectors::new();
    let b = from_string("YRUHQSLDPXNGOKMIEBFZCWVJAT").unwrap().table();
    let c = from_string("FVPJIAOYEDRZXWGCTKUQSBNMHL").unwrap().table();
    for x in 0..26 {
        assert_eq!(b[x], reflectors.b.sub(x));
        assert_eq!(c[x], reflectors.c.sub(x));
    }
    assert_eq!(5, reflectors.c.sub(0));
    assert_eq!(11, reflectors.c.sub(25));
}
