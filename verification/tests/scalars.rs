use maden::scalar::{coerce, is_float_text};
use maden::{FromParam, QueryValue};

fn kind(text: &str) -> String {
    match coerce(text) {
        QueryValue::Integer(v) => format!("integer {}", v),
        QueryValue::Float(t) => format!("float {}", t),
        QueryValue::Bool(b) => format!("bool {}", b),
        QueryValue::Text(t) => format!("text {}", t),
    }
}

#[test]
fn integers_are_taken_first() {
    assert_eq!(kind("2"), "integer 2");
    assert_eq!(kind("-17"), "integer -17");
    assert_eq!(kind("+5"), "integer 5");
    assert_eq!(kind("007"), "integer 7");
    assert_eq!(kind("-0"), "integer 0");
    assert_eq!(kind("9223372036854775807"), "integer 9223372036854775807");
    assert_eq!(kind("-9223372036854775808"), "integer -9223372036854775808");
}

#[test]
fn integers_beyond_64_bits_are_floats() {
    assert_eq!(kind("9223372036854775808"), "float 9223372036854775808");
    assert_eq!(kind("-9223372036854775809"), "float -9223372036854775809");
    assert_eq!(kind("123456789012345678901234567890"), "float 123456789012345678901234567890");
}

#[test]
fn floats_come_second() {
    assert_eq!(kind("3.14"), "float 3.14");
    assert_eq!(kind("-3.14"), "float -3.14");
    assert_eq!(kind("2.5E10"), "float 2.5E10");
    assert_eq!(kind("2.5e-10"), "float 2.5e-10");
    assert_eq!(kind("5."), "float 5.");
    assert_eq!(kind(".5"), "float .5");
    assert_eq!(kind("inf"), "float inf");
    assert_eq!(kind("-inf"), "float -inf");
    assert_eq!(kind("+infinity"), "float +infinity");
    assert_eq!(kind("NaN"), "float NaN");
    assert_eq!(kind("1e5"), "float 1e5");
}

#[test]
fn then_the_two_truth_words() {
    assert_eq!(kind("true"), "bool true");
    assert_eq!(kind("false"), "bool false");
    assert_eq!(kind("True"), "text True");
    assert_eq!(kind("FALSE"), "text FALSE");
    assert_eq!(kind("truee"), "text truee");
}

#[test]
fn anything_else_stays_text() {
    assert_eq!(kind("bob"), "text bob");
    assert_eq!(kind(""), "text ");
    assert_eq!(kind(" 2"), "text  2");
    assert_eq!(kind("2 "), "text 2 ");
    assert_eq!(kind("1_000"), "text 1_000");
    assert_eq!(kind("0x10"), "text 0x10");
    assert_eq!(kind("--1"), "text --1");
    assert_eq!(kind("1e"), "text 1e");
    assert_eq!(kind("."), "text .");
    assert_eq!(kind("e5"), "text e5");
    assert_eq!(kind("1.2.3"), "text 1.2.3");
    assert_eq!(kind("infinit"), "text infinit");
    assert_eq!(kind("\u{663}"), "text \u{663}");
}

#[test]
fn the_float_grammar_is_that_of_std() {
    for text in [
        "3.14", "-3.14", "2.5E10", "2.5e10", "2.5E-10", "5.", ".5", "0.5", "7", "007", "inf",
        "-inf", "+infinity", "NaN", "nan", "INF", "Infinity", "iNfInItY", "+.5e+3", "-5.e-3",
        "1e0", "0e999999", "1E+1",
    ] {
        assert!(is_float_text(text), "{}", text);
        assert!(text.parse::<f64>().is_ok(), "{}", text);
    }
    for text in [
        "", "+", "-", ".", "e", "e5", "1e", "1e+", "1e-", "+.", "-.e1", "1.2.3", "1e5.0", "1e5e5",
        " 1", "1 ", "1_0", "0x10", "infinit", "infinityy", "na", "nann", "++1", "+-1", "1+", "1f",
        "1.0f", "in f", "\u{130}nf", "\u{212a}", "i\u{307}nf", "1,5", "\u{663}",
    ] {
        assert!(!is_float_text(text), "{}", text);
        assert!(text.parse::<f64>().is_err(), "{}", text);
    }
}

#[test]
fn the_float_grammar_agrees_with_std_on_every_short_text() {
    let alphabet = [
        '+', '-', '.', 'e', 'E', '0', '7', 'i', 'I', 'n', 'N', 'f', 'a', 't', 'y', ' ', 'x',
    ];
    let mut texts = vec![String::new()];
    let mut checked = 0usize;
    for _ in 0..4 {
        let mut longer = Vec::new();
        for text in &texts {
            for c in alphabet {
                let mut next = text.clone();
                next.push(c);
                longer.push(next);
            }
        }
        for text in &longer {
            assert_eq!(is_float_text(text), text.parse::<f64>().is_ok(), "{:?}", text);
            checked += 1;
        }
        texts = longer;
    }
    assert_eq!(checked, 17 + 17 * 17 + 17 * 17 * 17 + 17 * 17 * 17 * 17);
}

#[test]
fn the_float_words_agree_with_std_in_every_case() {
    for word in ["inf", "nan", "infinity"] {
        let letters: Vec<char> = word.chars().collect();
        for mask in 0..(1u32 << letters.len()) {
            let mut text = String::new();
            for (i, c) in letters.iter().enumerate() {
                if mask & (1 << i) != 0 {
                    text.push(c.to_ascii_uppercase());
                } else {
                    text.push(*c);
                }
            }
            for sign in ["", "+", "-"] {
                let signed = format!("{}{}", sign, text);
                assert!(is_float_text(&signed), "{}", signed);
                assert!(signed.parse::<f64>().is_ok(), "{}", signed);
            }
        }
    }
}

#[test]
fn integer_typing_agrees_with_std_on_every_short_text() {
    let alphabet = ['+', '-', '0', '1', '9', ' ', 'a', '.'];
    let mut texts = vec![String::new()];
    for _ in 0..4 {
        let mut longer = Vec::new();
        for text in &texts {
            for c in alphabet {
                let mut next = text.clone();
                next.push(c);
                longer.push(next);
            }
        }
        for text in &longer {
            let expected = text.parse::<i64>().ok();
            let got = match coerce(text) {
                QueryValue::Integer(v) => Some(v),
                _ => None,
            };
            assert_eq!(got, expected, "{:?}", text);
        }
        texts = longer;
    }
}

#[test]
fn a_text_parameter_is_itself() {
    assert_eq!(String::from_param("abc"), Ok("abc".to_string()));
    assert_eq!(String::from_param(""), Ok(String::new()));
    assert_eq!(String::from_param("4 2"), Ok("4 2".to_string()));
}

#[test]
fn unsigned_parameters_are_decimal_digits() {
    assert_eq!(u32::from_param("42"), Ok(42));
    assert_eq!(u32::from_param("+42"), Ok(42));
    assert_eq!(u32::from_param("0042"), Ok(42));
    assert_eq!(u32::from_param("4294967295"), Ok(4294967295));
    assert_eq!(u64::from_param("18446744073709551615"), Ok(18446744073709551615));
    assert_eq!(u64::from_param("0"), Ok(0));
}

#[test]
fn signed_parameters_take_a_sign() {
    assert_eq!(i32::from_param("-42"), Ok(-42));
    assert_eq!(i32::from_param("+42"), Ok(42));
    assert_eq!(i32::from_param("2147483647"), Ok(2147483647));
    assert_eq!(i32::from_param("-2147483648"), Ok(-2147483648));
    assert_eq!(i64::from_param("-9223372036854775808"), Ok(i64::MIN));
    assert_eq!(i64::from_param("9223372036854775807"), Ok(i64::MAX));
}

#[test]
fn rejected_parameters_say_why() {
    assert_eq!(u32::from_param(""), Err("cannot parse integer from empty string".to_string()));
    assert_eq!(u32::from_param("abc"), Err("invalid digit found in string".to_string()));
    assert_eq!(u32::from_param("-1"), Err("invalid digit found in string".to_string()));
    assert_eq!(u32::from_param("4294967296"), Err("number too large to fit in target type".to_string()));
    assert_eq!(u64::from_param("18446744073709551616"), Err("number too large to fit in target type".to_string()));
    assert_eq!(u64::from_param("1.5"), Err("invalid digit found in string".to_string()));
    assert_eq!(i32::from_param("2147483648"), Err("number too large to fit in target type".to_string()));
    assert_eq!(i32::from_param("-2147483649"), Err("number too small to fit in target type".to_string()));
    assert_eq!(i32::from_param("+"), Err("invalid digit found in string".to_string()));
    assert_eq!(i64::from_param("9223372036854775808"), Err("number too large to fit in target type".to_string()));
    assert_eq!(i64::from_param(" 1"), Err("invalid digit found in string".to_string()));
}
