use rus::security::check_policy;
use rus::security::password_violation;
use rus::security::validate_password;
use rus::security::PolicyViolation;

#[test]
fn short_password_is_refused_for_its_length() {
    assert_eq!(
        validate_password("short1!"),
        Err("Password must be at least 8 characters long".to_string())
    );
}

#[test]
fn password_missing_only_a_symbol_is_refused_for_the_symbol() {
    assert_eq!(
        validate_password("Longenough1"),
        Err("Password must contain at least one special character".to_string())
    );
}

#[test]
fn password_missing_only_a_digit_is_refused_for_the_digit() {
    assert_eq!(
        validate_password("LONGENOUGH!"),
        Err("Password must contain at least one number".to_string())
    );
}

#[test]
fn password_missing_only_an_uppercase_letter_is_refused_for_it() {
    assert_eq!(
        validate_password("longenough1!"),
        Err("Password must contain at least one uppercase letter".to_string())
    );
}

#[test]
fn first_broken_rule_is_the_one_reported() {
    // No uppercase letter and no symbol: the uppercase rule comes first.
    assert_eq!(
        validate_password("longenough1"),
        Err("Password must contain at least one uppercase letter".to_string())
    );
    // Too short and everything else missing: length comes first.
    assert_eq!(password_violation(""), Err(PolicyViolation::TooShort));
    assert_eq!(password_violation("abc"), Err(PolicyViolation::TooShort));
}

#[test]
fn strong_password_is_accepted() {
    assert_eq!(validate_password("Str0ng!Passw0rd"), Ok(()));
    assert_eq!(validate_password("Aa1!aaaa"), Ok(()));
    assert_eq!(password_violation("Aa1!aaaa"), Ok(()));
}

#[test]
fn length_is_counted_in_characters() {
    // Six characters in ten bytes: too short, whatever their size.
    assert_eq!(
        validate_password("\u{c9}\u{e9}1!\u{e9}\u{e9}"),
        Err("Password must be at least 8 characters long".to_string())
    );
    // Seven characters in eleven bytes.
    assert_eq!(password_violation("Aa1!\u{e9}\u{e9}\u{20ac}"), Err(PolicyViolation::TooShort));
    // Eight characters in sixteen bytes.
    assert_eq!(validate_password("\u{c9}\u{e9}1!\u{e9}\u{e9}\u{20ac}\u{20ac}"), Ok(()));
    // Seven and eight characters of one byte each.
    assert_eq!(password_violation("Aa1!aaa"), Err(PolicyViolation::TooShort));
    assert_eq!(password_violation("Aa1!aaaa"), Ok(()));
    // Long passwords are fine.
    assert_eq!(validate_password(&format!("Aa1!{}", "x".repeat(10_000))), Ok(()));
}

#[test]
fn letters_and_digits_beyond_ascii_count() {
    // An uppercase Greek letter, an Arabic-Indic digit, a space as symbol.
    assert_eq!(password_violation("\u{3a9}\u{663} abcdef"), Ok(()));
    // A space is neither letter nor digit.
    assert_eq!(password_violation("Abcdefg1 "), Ok(()));
    // An underscore too.
    assert_eq!(password_violation("Abcdefg1_"), Ok(()));
}

#[test]
fn policy_is_judged_from_the_four_facts() {
    assert_eq!(check_policy(7, true, true, true), Err(PolicyViolation::TooShort));
    assert_eq!(check_policy(8, false, true, true), Err(PolicyViolation::NoUppercase));
    assert_eq!(check_policy(8, true, false, true), Err(PolicyViolation::NoDigit));
    assert_eq!(check_policy(8, true, true, false), Err(PolicyViolation::NoSymbol));
    assert_eq!(check_policy(8, true, true, true), Ok(()));
    assert_eq!(check_policy(0, false, false, false), Err(PolicyViolation::TooShort));
    assert_eq!(check_policy(usize::MAX, false, false, false), Err(PolicyViolation::NoUppercase));
}

#[test]
fn each_violation_has_its_sentence() {
    assert_eq!(
        PolicyViolation::TooShort.message(),
        "Password must be at least 8 characters long"
    );
    assert_eq!(
        PolicyViolation::NoUppercase.message(),
        "Password must contain at least one uppercase letter"
    );
    assert_eq!(PolicyViolation::NoDigit.message(), "Password must contain at least one number");
    assert_eq!(
        PolicyViolation::NoSymbol.message(),
        "Password must contain at least one special character"
    );
}

#[test]
fn ascii_characters_are_classed_by_their_ranges() {
    for code in 0u8..128 {
        let c = code as char;
        let capital = ('A'..='Z').contains(&c);
        let digit = ('0'..='9').contains(&c);
        let letter_or_digit = capital || digit || ('a'..='z').contains(&c);
        // Each password lacks exactly what the character can bring.
        assert_eq!(password_violation(&format!("a1!aaaaa{}", c)).is_ok(), capital, "{:?}", c);
        assert_eq!(password_violation(&format!("Aa!aaaaa{}", c)).is_ok(), digit, "{:?}", c);
        assert_eq!(
            password_violation(&format!("Aa1aaaaa{}", c)).is_ok(),
            !letter_or_digit,
            "{:?}",
            c
        );
    }
}
