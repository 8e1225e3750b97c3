use enigma::alphas_to_string;
use enigma::alpha::to_string;
use enigma::Alpha;

#[test]
fn letters_from_indices() {
    assert_eq!(Ok(Alpha::A), Alpha::try_from_usize(0));
    assert_eq!(Ok(Alpha::N), Alpha::try_from_usize(13));
    assert_eq!(Ok(Alpha::Z), Alpha::try_from_usize(25));
    assert_eq!(Err("oh noes"), Alpha::try_from_usize(26));
    assert_eq!(Err("oh noes"), Alpha::try_from_usize(usize::MAX));
}

#[test]
fn letters_from_chars() {
    assert_eq!(Ok(Alpha::A), Alpha::try_from_char('A'));
    assert_eq!(Ok(Alpha::A), Alpha::try_from_char('a'));
    assert_eq!(Ok(Alpha::Z), Alpha::try_from_char('Z'));
    assert_eq!(Ok(Alpha::Z), Alpha::try_from_char('z'));
    assert_eq!(Ok(Alpha::Q), Alpha::try_from_char('q'));
    assert_eq!(Err("oh noes"), Alpha::try_from_char('5'));
    assert_eq!(Err("oh noes"), Alpha::try_from_char(' '));
    assert_eq!(Err("oh noes"), Alpha::try_from_char('@'));
    assert_eq!(Err("oh noes"), Alpha::try_from_char('['));
    assert_eq!(Err("oh noes"), Alpha::try_from_char('`'));
    assert_eq!(Err("oh noes"), Alpha::try_from_char('{'));
    assert_eq!(Err("oh noes"), Alpha::try_from_char('Δ'));
}

#[test]
fn letters_to_indices_and_chars() {
    let upper = "ABCDEFGHIJKLMNOPQRSTUVWXYZ";
    for (n, c) in upper.chars().enumerate() {
        let letter = Alpha::try_from_usize(n).unwrap();
        assert_eq!(n, usize::from(letter));
        assert_eq!(c, char::from(letter));
        assert_eq!(Ok(letter), Alpha::try_from_char(c));
    }
    assert_eq!(0, usize::from(Alpha::A));
    assert_eq!(25, usize::from(Alpha::Z));
    assert_eq!('M', char::from(Alpha::M));
}

#[test]
fn from_string_keeps_the_letters_only() {
    assert_eq!(
        vec![Alpha::H, Alpha::E, Alpha::L, Alpha::L, Alpha::O],
        Alpha::from_string("Hello")
    );
    assert_eq!(
        vec![Alpha::H, Alpha::E, Alpha::L, Alpha::L, Alpha::O, Alpha::W, Alpha::O, Alpha::R, Alpha::L, Alpha::D],
        Alpha::from_string("hello, world! 42 Δ")
    );
    assert_eq!(Vec::<Alpha>::new(), Alpha::from_string(""));
    assert_eq!(Vec::<Alpha>::new(), Alpha::from_string("1234 ?!"));
}

#[test]
fn to_string_spells_in_upper_case() {
    assert_eq!("", to_string(&[]));
    assert_eq!("AB", alphas_to_string(&[Alpha::A, Alpha::B]));
    assert_eq!("ENIGMA", to_string(&Alpha::from_string("enigma")));
    assert_eq!(
        "ABCDEFGHIJKLMNOPQRSTUVWXYZ",
        to_string(&Alpha::from_string("abcdefghijklmnopqrstuvwxyz"))
    );
}
