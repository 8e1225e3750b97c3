use enigma::cipher::from_char as CC;
use enigma::cipher::from_string;
use enigma::rotor::Rotor;
use enigma::Alpha;
use enigma::Rotors;

#[test]
fn noop_rotor() {
    let wiring = from_string("ABCDEFGHIJKLMNOPQRSTUVWXYZ").unwrap();
    let rotor = Rotor::new(wiring, CC('A'), CC('A'));

    assert_eq!(CC('A'), rotor.sub(CC('A')));
    assert_eq!(CC('A'), rotor.inverse_sub(CC('A')));
}

#[test]
fn ring_position() {
    let wiring = from_string("ABCDEFGHIJKLMNOPQRSTUVWXYZ").unwrap();
    let rotor = Rotor::new(wiring, CC('A'), CC('B'));

    assert_eq!(CC('A'), rotor.sub(CC('A')));
    assert_eq!(CC('A'), rotor.inverse_sub(CC('A')));
}

#[test]
fn a_b_flip() {
    let wiring = from_string("BACDEFGHIJKLMNOPQRSTUVWXYZ").unwrap();
    let rotor = Rotor::new(wiring, CC('A'), CC('A'));

    assert_eq!(CC('B'), rotor.sub(CC('A')));
    assert_eq!(CC('A'), rotor.sub(CC('B')));
    assert_eq!(CC('Z'), rotor.sub(CC('Z')));
    assert_eq!(CC('B'), rotor.inverse_sub(CC('A')));
    assert_eq!(CC('A'), rotor.inverse_sub(CC('B')));
    assert_eq!(CC('Z'), rotor.inverse_sub(CC('Z')));
}

#[test]
fn a_b_flip_with_ring_position() {
    let wiring = from_string("BACDEFGHIJKLMNOPQRSTUVWXYZ").unwrap();
    let rotor = Rotor::new(wiring, CC('A'), CC('B'));

    assert_eq!(CC('Z'), rotor.sub(CC('A')));
    assert_eq!(CC('B'), rotor.sub(CC('B')));
    assert_eq!(CC('A'), rotor.sub(CC('Z')));
    assert_eq!(CC('Z'), rotor.inverse_sub(CC('A')));
    assert_eq!(CC('B'), rotor.inverse_sub(CC('B')));
    assert_eq!(CC('A'), rotor.inverse_sub(CC('Z')));
}

#[test]
fn ring_setting_shifts_entry_and_exit() {
    let rotors = Rotors::default();

    let rotor = rotors.i.with_ring_setting(Alpha::B);
    assert_eq!(9, rotor.sub(0));
    assert_eq!(21, rotor.inverse_sub(0));
    assert_eq!(3, rotor.sub(25));

    let rotor = rotors.iii.with_ring_setting(Alpha::E);
    let expected = [
        5, 7, 24, 11, 13, 15, 19, 17, 21, 9, 20, 0, 4, 18, 2, 22, 6, 8, 16, 14, 12, 10, 23, 25, 1, 3,
    ];
    for c in 0..26 {
        assert_eq!(expected[c], rotor.sub(c));
        assert_eq!(c, rotor.inverse_sub(expected[c]));
    }
}

#[test]
fn forward_and_inverse_undo_each_other_under_every_ring_setting() {
    let rotors = Rotors::default();
    for factory in [rotors.i, rotors.ii, rotors.iii, rotors.iv, rotors.v] {
        for ring in 0..26 {
            let rotor = factory.with_ring_setting(Alpha::try_from_usize(ring).unwrap());
            for c in 0..26 {
                assert!(rotor.sub(c) < 26);
                assert_eq!(c, rotor.inverse_sub(rotor.sub(c)));
                assert_eq!(c, rotor.sub(rotor.inverse_sub(c)));
            }
        }
    }
}

#[test]
fn notch_is_engaged_eighteen_past_the_notch_letter() {
    let rotors = Rotors::default();
    // notch letters Y, M, D, R, H show as Q, E, V, J, Z in the window
    let windows = [16, 4, 21, 9, 25];
    let factories = [rotors.i, rotors.ii, rotors.iii, rotors.iv, rotors.v];
    for (factory, window) in factories.iter().zip(windows) {
        let rotor = factory.with_ring_setting(Alpha::A);
        for position in 0..26 {
            assert_eq!(position == window, rotor.notch_engaged(position));
        }
        assert!(!rotor.notch_engaged(26 + window));
    }
}

#[test]
fn notch_does_not_move_with_the_ring_setting() {
    let rotors = Rotors::default();
    let rotor = rotors.ii.with_ring_setting(Alpha::K);
    assert!(rotor.notch_engaged(4));
    assert!(!rotor.notch_engaged(14));
}

#[test]
fn preset_rotors_have_the_issued_wirings() {
    let rotors = Rotors::default();
    let wirings = [
        "EKMFLGDQVZNTOWYHXUSPAIBRCJ",
        "AJDKSIRUXBLHWTMCQGZNPYFVOE",
        "BDFHJLCPRTXVZNYEIWGAKMUSQO",
        "ESOVPZJAYQUIRHXLNFTGKDCMWB",
        "VZBRGITYUPSDNHLXAWMJQOFECK",
    ];
    let factories = [rotors.i, rotors.ii, rotors.iii, rotors.iv, rotors.v];
    for (factory, wiring) in factories.iter().zip(wirings) {
        let rotor = factory.with_ring_setting(Alpha::A);
        let table = from_string(wiring).unwrap().table();
        for c in 0..26 {
            assert_eq!(table[c], rotor.sub(c));
        }
    }
}
