use comp::command::{Command, MathOp, Register, lookup};
use comp::number::{gcd, is_float_text, parse_uint, uint_text};
use comp::text::same_text;

#[test]
fn float_literals_agree_with_std() {
    let cases = [
        "0", "1", "-1", "+1", "1.", ".5", "-.5", "1.5", "1e5", "1E5", "1e+5", "1e-5", "1.e5",
        ".5e5", "inf", "-inf", "+Inf", "INFINITY", "infinity", "NaN", "nan", "-nan", "", ".",
        "-", "+", "e", "e5", "1e", "1e+", "1.5.5", "1..5", "1,5", "abc", "0x10", "1_000",
        "1e5.5", "infinit", "infx", "--1", "+-1", "1 ", "١", "5a", "ee", "1ee5", "12345678901234567890",
    ];
    for c in cases {
        assert_eq!(is_float_text(c), c.parse::<f64>().is_ok(), "{c:?}");
    }
}

#[test]
fn unsigned_integers_agree_with_std() {
    let cases = [
        "0", "7", "+7", "-7", "-0", "", "+", "18446744073709551615", "18446744073709551616",
        "99999999999999999999", "1.0", "1e3", "007", "12a",
    ];
    for c in cases {
        assert_eq!(parse_uint(c), c.parse::<u64>().ok(), "{c:?}");
    }
}

#[test]
fn unsigned_integer_text() {
    assert_eq!(uint_text(0), "0");
    assert_eq!(uint_text(5), "5");
    assert_eq!(uint_text(3628800), "3628800");
    assert_eq!(uint_text(u64::MAX), u64::MAX.to_string());
}

#[test]
fn euclid_gcd() {
    assert_eq!(gcd(55, 10), 5);
    assert_eq!(gcd(10, 55), 5);
    assert_eq!(gcd(0, 9), 9);
    assert_eq!(gcd(9, 0), 9);
    assert_eq!(gcd(17, 5), 1);
    assert_eq!(gcd(0, 0), 0);
    assert_eq!(gcd(48, 180), 12);
}

#[test]
fn text_equality() {
    assert!(same_text("drop", "drop"));
    assert!(!same_text("drop", "dro"));
    assert!(!same_text("drop", "drip"));
    assert!(same_text("", ""));
}

#[test]
fn registry_aliases() {
    assert_eq!(lookup("cls"), Some(Command::Clear));
    assert_eq!(lookup("clr"), Some(Command::Clear));
    assert_eq!(lookup("log"), lookup("log10"));
    assert_eq!(lookup("exp"), Some(Command::Math(MathOp::Pow)));
    assert_eq!(lookup("^"), Some(Command::Math(MathOp::Pow)));
    assert_eq!(lookup(".a"), Some(Command::Store(Register::A)));
    assert_eq!(lookup("c"), Some(Command::Recall(Register::C)));
    assert_eq!(lookup("fn"), Some(Command::Define));
    assert_eq!(lookup("("), Some(Command::Comment));
    assert_eq!(lookup(")"), None);
    assert_eq!(lookup("end"), None);
    assert_eq!(lookup("5"), None);
}
