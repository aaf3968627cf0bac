use gerber::primitive::{
    aperture_identifier, decimal, field, integer, into_aperture_id, into_i32, name,
    positive_integer, string, system_name,
    unsigned_decimal, unsigned_integer, user_name, ApertureId, Decimal, EscapedString,
};

/// The value of a decimal parse that consumed the whole input.
fn whole(parsed: Option<(Decimal, usize)>, input: &str) -> Option<f64> {
    match parsed {
        Some((d, n)) if n == input.len() => {
            Some(d.mantissa as f64 / 10f64.powi(d.scale as i32))
        }
        _ => None,
    }
}

fn ud(input: &str) -> Option<f64> {
    whole(unsigned_decimal(input.as_bytes()), input)
}

fn dec(input: &str) -> Option<f64> {
    whole(decimal(input.as_bytes()), input)
}

fn check_integers() {
    // Unsigned Integers
    assert_eq!(unsigned_integer(b"0"), Some((0, 1)));
    assert_eq!(unsigned_integer(b"123"), Some((123, 3)));
    assert!(unsigned_integer(b"+123").is_none());
    assert!(unsigned_integer(b"-123").is_none());

    // Positive Integers
    assert!(positive_integer(b"0").is_none());
    assert_eq!(positive_integer(b"123"), Some((123, 3)));
    assert!(positive_integer(b"+123").is_none());
    assert!(positive_integer(b"-123").is_none());

    // Integers
    assert_eq!(integer(b"0"), Some((0, 1)));
    assert_eq!(integer(b"123"), Some((123, 3)));
    assert_eq!(integer(b"+123"), Some((123, 4)));
    assert_eq!(integer(b"-123"), Some((-123, 4)));
}

fn check_decimals() {
    // Unsigned Decimals
    assert_eq!(ud("0"), Some(0.));
    assert_eq!(ud("0."), Some(0.));
    assert_eq!(ud(".0"), Some(0.));
    assert_eq!(ud("0.0"), Some(0.));
    assert_eq!(ud("12.34"), Some(12.34));
    assert!(unsigned_decimal(b".").is_none());

    // Decimals
    assert_eq!(dec("0"), Some(0.));
    assert_eq!(dec("0."), Some(0.));
    assert_eq!(dec(".0"), Some(0.));
    assert_eq!(dec("0.0"), Some(0.));
    assert_eq!(dec("1"), Some(1.));
    assert_eq!(dec("1."), Some(1.));
    assert_eq!(dec(".1"), Some(0.1));
    assert_eq!(dec("1.0"), Some(1.));
    assert_eq!(dec("-1"), Some(-1.));
    assert_eq!(dec("-1."), Some(-1.));
    assert_eq!(dec("-.1"), Some(-0.1));
    assert_eq!(dec("-1.0"), Some(-1.));
    assert!(decimal(b".").is_none());
}

fn check_names() {
    // User-defined Name
    assert_eq!(user_name(b"foo!"), Some(3));
    assert_eq!(user_name(b"_"), Some(1));
    assert_eq!(user_name(b"$"), Some(1));
    assert_eq!(user_name(b"a"), Some(1));
    assert_eq!(user_name(b"A"), Some(1));
    assert_eq!(user_name(b"__$Some.01__Name"), Some(16));

    let valid_long = "x".repeat(127);
    assert_eq!(user_name(valid_long.as_bytes()), Some(127));

    let invalid_long = "x".repeat(128);
    assert!(user_name(invalid_long.as_bytes()).is_none());

    assert!(user_name(b".Nope").is_none());
    assert!(user_name(b"1Nope").is_none());

    // System-defined Name
    assert_eq!(system_name(b".foo!"), Some(4));
    assert_eq!(system_name(b"._"), Some(2));
    assert_eq!(system_name(b".$"), Some(2));
    assert_eq!(system_name(b".a"), Some(2));
    assert_eq!(system_name(b".A"), Some(2));
    assert_eq!(system_name(b".__$Some.01__Name"), Some(17));

    let valid_long = format!(".{}", "x".repeat(126));
    assert_eq!(system_name(valid_long.as_bytes()), Some(127));

    let invalid_long = format!(".{}", "x".repeat(127));
    assert!(system_name(invalid_long.as_bytes()).is_none());

    assert!(system_name(b"Nope").is_none());
    assert!(system_name(b".1Nope").is_none());
}

#[test]
fn data_test_integers() {
    check_integers();
}

#[test]
fn primitive_test_integers() {
    check_integers();
}

#[test]
fn data_test_decimals() {
    check_decimals();
}

#[test]
fn primitive_test_decimals() {
    check_decimals();
}

#[test]
fn data_test_aperture_id() {
    assert_eq!(aperture_identifier(b"D0123"), Some((ApertureId(123), 5)));
}

#[test]
fn primitive_test_aperture_id() {
    assert_eq!(aperture_identifier(b"D0123"), Some((ApertureId(123), 5)));
}

#[test]
fn data_test_name() {
    check_names();
}

#[test]
fn primitive_test_name() {
    check_names();
}

#[test]
fn test_field() {
    let valid_field = "Can be anything 😀; except for a comma!\nEven a newline is ok.";
    assert_eq!(
        field(valid_field.as_bytes()),
        (EscapedString::new_unescaped(valid_field.as_bytes()), valid_field.len())
    );

    let with_comma = "before,after";
    assert_eq!(
        field(with_comma.as_bytes()),
        (EscapedString::new_unescaped(b"before"), 6)
    );

    let with_percent = "before%after";
    assert_eq!(
        field(with_percent.as_bytes()),
        (EscapedString::new_unescaped(b"before"), 6)
    );

    let with_star = "before*after";
    assert_eq!(
        field(with_star.as_bytes()),
        (EscapedString::new_unescaped(b"before"), 6)
    );
}

#[test]
fn test_string() {
    assert_eq!(string(b""), (EscapedString::new_unescaped(b""), 0));
    assert_eq!(string(b" "), (EscapedString::new_unescaped(b" "), 1));
    assert_eq!(string(b"a\nb"), (EscapedString::new_unescaped(b"a\nb"), 3));

    let with_percent = "before%after";
    assert_eq!(
        string(with_percent.as_bytes()),
        (EscapedString::new_unescaped(b"before"), 6)
    );

    let with_star = "before*after";
    assert_eq!(
        string(with_star.as_bytes()),
        (EscapedString::new_unescaped(b"before"), 6)
    );
}

#[test]
fn decimal_keeps_sign_and_fraction() {
    assert_eq!(decimal(b"-.5"), Some((Decimal::new(-5, 1), 3)));
    assert_eq!(decimal(b"1."), Some((Decimal::new(1, 0), 2)));
    assert_eq!(decimal(b"+12.50"), Some((Decimal::new(1250, 2), 6)));
    assert_eq!(dec("-.5"), Some(-0.5));
    assert_eq!(dec("1."), Some(1.0));
    assert_eq!(decimal(b"-"), None);
    assert_eq!(decimal(b"x"), None);
}

#[test]
fn decimal_stops_before_other_text() {
    assert_eq!(decimal(b"3.25X1"), Some((Decimal::new(325, 2), 4)));
    assert_eq!(unsigned_decimal(b"-1"), None);
}

#[test]
fn decimal_too_long_is_refused() {
    let long = "9".repeat(20);
    assert_eq!(decimal(long.as_bytes()), None);
    assert_eq!(
        decimal(b"9223372036854775807"),
        Some((Decimal::new(i64::MAX, 0), 19))
    );
}

#[test]
fn integer_out_of_range_is_refused() {
    assert_eq!(unsigned_integer(b"2147483647"), Some((i32::MAX, 10)));
    assert_eq!(unsigned_integer(b"2147483648"), None);
}

#[test]
fn positive_integer_zero_forms() {
    assert!(positive_integer(b"0").is_none());
    assert!(positive_integer(b"000").is_none());
    assert_eq!(positive_integer(b"007"), Some((7, 3)));
    assert_eq!(positive_integer(b"10"), Some((10, 2)));
    assert_eq!(unsigned_integer(b"0"), Some((0, 1)));
}

#[test]
fn aperture_identifier_below_ten_is_refused() {
    assert!(aperture_identifier(b"D5").is_none());
    assert!(aperture_identifier(b"D09").is_none());
    assert_eq!(aperture_identifier(b"D10"), Some((ApertureId(10), 3)));
    assert!(aperture_identifier(b"X10").is_none());
}

#[test]
fn escaped_string_keeps_its_text() {
    let e = EscapedString::new_escaped(b"a\\u0041");
    assert_eq!(e.unescape(), b"a\\u0041".to_vec());
    let u = EscapedString::new_unescaped(b"plain");
    assert_eq!(u.unescape(), b"plain".to_vec());
    assert_ne!(e, EscapedString::new_unescaped(b"a\\u0041"));
}

#[test]
fn render_round_trip() {
    for (m, s) in [(-5i64, 1usize), (1250, 2), (0, 0), (7, 0), (3, 5), (-123456789, 3), (i64::MAX, 30)] {
        let d = Decimal::new(m, s);
        let text = d.render();
        assert_eq!(decimal(&text), Some((d, text.len())));
    }
    assert_eq!(Decimal::new(-5, 1).render(), b"-0.5".to_vec());
    assert_eq!(Decimal::new(1250, 2).render(), b"12.50".to_vec());
    assert_eq!(Decimal::new(42, 0).render(), b"42".to_vec());
    assert_eq!(Decimal::new(3, 25).render().len(), 27);
}

#[test]
fn parsed_then_rendered_keeps_value() {
    for input in ["-.5", "1.", "0012.340", "+7", "-0.0"] {
        let (d, _) = decimal(input.as_bytes()).unwrap();
        let again = decimal(&d.render()).unwrap().0;
        assert_eq!(again, d);
        assert_eq!(dec(input), whole(Some((again, input.len())), input));
    }
}

#[test]
fn digits_to_values() {
    assert_eq!(into_i32(b"0"), 0);
    assert_eq!(into_i32(b"0123"), 123);
    assert_eq!(into_i32(b"2147483647"), i32::MAX);
    assert_eq!(into_i32(b"-123"), -123);
    assert_eq!(into_i32(b"+123"), 123);
    assert_eq!(into_i32(b"-2147483648"), i32::MIN);
    assert_eq!(into_aperture_id(42), ApertureId(42));
}

#[test]
fn names_prefer_system_form() {
    assert_eq!(name(b".Part,x"), Some(5));
    assert_eq!(name(b"Part,x"), Some(4));
    assert_eq!(name(b"9x"), None);
    assert_eq!(name(b".9x"), None);
}
