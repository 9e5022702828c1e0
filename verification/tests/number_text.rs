use rotation_tool::number_text::is_number_text;

fn parses(text: &str) -> bool {
    text.parse::<f64>().is_ok()
}

#[test]
fn plain_numbers_are_accepted() {
    for text in [
        "0", "7", "007", "3.14", "-3.14", "+.5", "5.", ".5", "2.5E10", "2.5e-10", "1e+3", "1.e5",
        "0.0000", "-1.0000", "123456789012345678901234567890", "1e99999999999999999999",
        "0.000000000000000000000000000000000000000000001",
    ] {
        assert!(is_number_text(text), "{text}");
    }
}

#[test]
fn infinity_and_nan_are_accepted_in_any_case() {
    for text in [
        "inf", "-inf", "+inf", "INF", "Inf", "iNf", "infinity", "-Infinity", "+INFINITY", "InFiNiTy",
        "nan", "NaN", "-nan", "+NAN",
    ] {
        assert!(is_number_text(text), "{text}");
    }
}

#[test]
fn other_texts_are_refused() {
    for text in [
        "", "abc", "+", "-", ".", "+.", "e5", ".e5", "1e", "1e+", "1e-", " 1", "1 ", "1_000", "0x10",
        "1..2", "--1", "+-1", "1e5.0", "1e5e5", "1,5", "in", "infi", "infinit", "infinityy", "na",
        "nann", "i nf", "1f", "1.0f64", "\u{661}", "1\u{a0}", "١٢٣", "1é", "éé1", "−1", "1e１",
    ] {
        assert!(!is_number_text(text), "{text}");
    }
}

fn check_all(alphabet: &[char], length: usize, prefix: &mut String) {
    assert_eq!(is_number_text(prefix), parses(prefix), "{prefix:?}");
    if length > 0 {
        for &c in alphabet {
            prefix.push(c);
            check_all(alphabet, length - 1, prefix);
            prefix.pop();
        }
    }
}

#[test]
fn agrees_with_the_standard_parser_on_short_texts() {
    let alphabet = ['+', '-', '.', 'e', 'E', '0', '7', 'n', 'a', 'N', 'i', 'f', ' ', 'é'];
    check_all(&alphabet, 5, &mut String::new());
}

#[test]
fn agrees_with_the_standard_parser_on_digits_points_and_exponents() {
    let alphabet = ['-', '.', 'e', '1', '9', '+'];
    check_all(&alphabet, 7, &mut String::new());
}

#[test]
fn agrees_with_the_standard_parser_on_words() {
    let alphabet = ['i', 'n', 'f', 't', 'y', 'I', 'T', 'a'];
    for word in ["infinity", "INFINITY", "nan", "inf"] {
        for position in 0..=word.len() {
            for &c in &alphabet {
                let mut longer = word.to_owned();
                longer.insert(position, c);
                assert_eq!(is_number_text(&longer), parses(&longer), "{longer:?}");
                if position < word.len() {
                    let mut other: Vec<char> = word.chars().collect();
                    other[position] = c;
                    let other: String = other.into_iter().collect();
                    assert_eq!(is_number_text(&other), parses(&other), "{other:?}");
                    for sign in ["+", "-", " "] {
                        let signed = format!("{sign}{other}");
                        assert_eq!(is_number_text(&signed), parses(&signed), "{signed:?}");
                    }
                }
            }
        }
    }
}

#[test]
fn agrees_with_the_standard_parser_on_every_single_byte() {
    for byte in 0u8..128 {
        let c = byte_char(byte);
        for pattern in ["{}", "1{}", "{}1", "1{}1", "1.{}", "1e{}1", "in{}", "na{}"] {
            let text = pattern.replace("{}", &c.to_string());
            assert_eq!(is_number_text(&text), parses(&text), "{text:?}");
        }
    }
}

fn byte_char(byte: u8) -> char {
    char::from(byte)
}
