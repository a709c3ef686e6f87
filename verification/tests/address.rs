use std::str::FromStr;

use pincers::register::{
    ascii_distance, ascii_shift, do_parse_address, NamedT, NumericT, RegisterAddress, ADDRESS_HELP,
};

fn numeric(n: u8) -> RegisterAddress {
    RegisterAddress::Numeric(NumericT::new(n).unwrap())
}

fn named(n: u8) -> RegisterAddress {
    RegisterAddress::Named(NamedT::new(n).unwrap())
}

#[test]
fn bounded_numbers_keep_their_value() {
    for n in 0..=u8::MAX {
        assert_eq!(NumericT::new(n).map(|x| x.get()), if n <= 9 { Some(n) } else { None });
        assert_eq!(NamedT::new(n).map(|x| x.get()), if n <= 25 { Some(n) } else { None });
    }
    assert_eq!(NumericT::MAX_VALUE, 9);
    assert_eq!(NamedT::MAX_VALUE, 25);
}

#[test]
fn all_addresses_in_order() {
    let all = RegisterAddress::iter();
    assert_eq!(all.len(), 36);
    assert_eq!(all[0], numeric(0));
    assert_eq!(all[9], numeric(9));
    assert_eq!(all[10], named(0));
    assert_eq!(all[35], named(25));
    for i in 1..all.len() {
        assert!(all[i - 1] < all[i]);
    }
    assert_eq!(RegisterAddress::iter_numeric().len(), 10);
    assert_eq!(RegisterAddress::iter_named().len(), 26);
}

#[test]
fn default_address_is_zero() {
    assert_eq!(RegisterAddress::default(), numeric(0));
    assert_eq!(RegisterAddress::or_default(None), numeric(0));
    assert_eq!(RegisterAddress::or_default(Some(named(3))), named(3));
}

#[test]
fn addresses_are_written_like_in_vim() {
    assert_eq!(numeric(0).to_string(), "\"0");
    assert_eq!(numeric(9).to_string(), "\"9");
    assert_eq!(named(0).to_string(), "\"a");
    assert_eq!(named(25).to_string(), "\"z");
    assert_eq!(numeric(3).debug_string(), "Numeric(Bounded(3))");
    assert_eq!(named(25).debug_string(), "Named(Bounded(25))");
}

#[test]
fn bounded_integers_are_written_alike_in_messages() {
    let bounded = bounded_integer::BoundedU8::<0, 9>::new(7).unwrap();
    assert_eq!(format!("Numeric({:?})", bounded), numeric(7).debug_string());
}

#[test]
fn single_characters_are_parsed() {
    assert_eq!(RegisterAddress::from_str("0"), Ok(numeric(0)));
    assert_eq!(RegisterAddress::from_str("7"), Ok(numeric(7)));
    assert_eq!("a".parse::<RegisterAddress>(), Ok(named(0)));
    assert_eq!("z".parse::<RegisterAddress>(), Ok(named(25)));
}

#[test]
fn everything_else_is_refused() {
    for text in ["", "A", "10", "aa", "a ", " a", "\"a", "é", "`", "{", "/", ":"] {
        assert_eq!(
            text.parse::<RegisterAddress>(),
            Err("Register address must be a single character from [0-9a-z].".to_string())
        );
    }
}

#[test]
fn the_rest_of_the_input_is_kept() {
    assert_eq!(do_parse_address("b7é"), Some(("7é", named(1))));
    assert_eq!(do_parse_address("7"), Some(("", numeric(7))));
    assert_eq!(do_parse_address(""), None);
    assert_eq!(do_parse_address("é"), None);
}

#[test]
fn parsing_undoes_writing() {
    for addr in RegisterAddress::iter() {
        let text = addr.to_string();
        assert_eq!(text[1..].parse(), Ok(addr));
    }
}

#[test]
fn distances_and_shifts() {
    assert_eq!(ascii_distance('z', 'a'), Some(25));
    assert_eq!(ascii_distance('a', 'a'), Some(0));
    assert_eq!(ascii_distance('\u{ff}', '\0'), Some(255));
    assert_eq!(ascii_distance('\u{100}', '\0'), None);
    assert_eq!(ascii_shift('a', 25), Some('z'));
    assert_eq!(ascii_shift('a', 158), Some('\u{ff}'));
    assert_eq!(ascii_shift('a', 159), None);
    assert_eq!(ascii_shift('\u{10ffff}', 0), None);
}

#[test]
fn help_names_the_characters() {
    assert_eq!(ADDRESS_HELP, "A character from [0-9a-z]");
}
