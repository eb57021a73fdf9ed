use rlox::list::reversed;
use rlox::numeral::{digits_until, is_numeral, Numeral};
use rlox::text::{append_decimal, chars_of, clone_names, is_digit, string_of};

#[test]
fn characters_of_a_string() {
    assert_eq!(chars_of(""), Vec::<char>::new());
    assert_eq!(chars_of("a1_"), vec!['a', '1', '_']);
    assert_eq!(chars_of("été\n"), vec!['é', 't', 'é', '\n']);
}

#[test]
fn string_of_a_range() {
    let chars = vec!['h', 'e', 'l', 'l', 'o'];
    assert_eq!(string_of(&chars, 0, 5), "hello");
    assert_eq!(string_of(&chars, 1, 3), "el");
    assert_eq!(string_of(&chars, 2, 2), "");
}

#[test]
fn digits_are_the_ten_ascii_digits() {
    for c in '0'..='9' {
        assert!(is_digit(c));
    }
    for c in ['a', '/', ':', ' ', '٣', 'é'] {
        assert!(!is_digit(c));
    }
}

#[test]
fn decimal_numerals() {
    for n in [0u32, 1, 9, 10, 11, 99, 100, 255, 1000, 65536, 4294967295] {
        let mut s = String::from("n=");
        append_decimal(&mut s, n);
        assert_eq!(s, format!("n={}", n));
    }
}

#[test]
fn reversed_lists() {
    assert_eq!(reversed(Vec::<u8>::new()), Vec::<u8>::new());
    assert_eq!(reversed(vec![1]), vec![1]);
    assert_eq!(reversed(vec![1, 2, 3]), vec![3, 2, 1]);
}

#[test]
fn copies_of_names() {
    let names = vec!["a".to_string(), "bc".to_string()];
    assert_eq!(clone_names(&names), names);
}

#[test]
fn numerals() {
    for text in ["0", "7", "42", "007", "1.5", "0.0", "123.456", "00.10"] {
        let n = Numeral::new(text.to_string()).expect(text);
        assert_eq!(n.as_str(), text);
        assert_eq!(n.to_string(), text);
        assert_eq!(n.clone(), n);
        assert!(is_numeral(&text.chars().collect()));
        assert!(text.parse::<f64>().is_ok());
    }
    for text in ["", ".", "1.", ".5", "1..5", "1.5.", "1.5.2", "a", "1a", "1 ", " 1", "-1", "+1", "1e5", "٣", "1.٣"] {
        assert!(Numeral::new(text.to_string()).is_none(), "{}", text);
        assert!(!is_numeral(&text.chars().collect()));
    }
    assert!(Numeral::new("1".to_string()) != Numeral::new("1.0".to_string()));
}

#[test]
fn numeral_from_characters() {
    let chars: Vec<char> = "x=12.5;".chars().collect();
    assert_eq!(digits_until(&chars, 0), 0);
    assert_eq!(digits_until(&chars, 2), 4);
    assert_eq!(digits_until(&chars, 5), 6);
    assert_eq!(digits_until(&chars, 7), 7);
    assert_eq!(Numeral::from_chars(&chars, 2, 6).as_str(), "12.5");
    assert_eq!(Numeral::from_chars(&chars, 2, 4).as_str(), "12");
}
