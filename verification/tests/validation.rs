use vault::error::VaultError;
use vault::validation::validate_and_standardize_name;

#[test]
fn accepted_names_are_lowercased() {
    assert_eq!(
        validate_and_standardize_name("ApertureScience"),
        Ok("aperturescience".to_string())
    );
    assert_eq!(validate_and_standardize_name("R2D2"), Ok("r2d2".to_string()));
    assert_eq!(validate_and_standardize_name("a"), Ok("a".to_string()));
    assert_eq!(validate_and_standardize_name("0"), Ok("0".to_string()));
    assert_eq!(validate_and_standardize_name("azAZ09"), Ok("azaz09".to_string()));
}

#[test]
fn names_with_other_characters_are_rejected() {
    for name in [
        "../evil",
        "../../name",
        "a\0b",
        "Star Wars",
        "a/b",
        "a.b",
        "a-b",
        "a_b",
        "caf\u{e9}",
        "\u{0130}",
        "~",
        "@",
        "[",
        "`",
        "{",
        "/",
        ":",
    ] {
        assert_eq!(validate_and_standardize_name(name), Err(VaultError::ValidationError));
    }
}

#[test]
fn name_length_is_between_1_and_100() {
    assert_eq!(validate_and_standardize_name(""), Err(VaultError::ValidationError));
    let longest = "A".repeat(100);
    assert_eq!(validate_and_standardize_name(&longest), Ok("a".repeat(100)));
    let too_long = "a".repeat(101);
    assert_eq!(validate_and_standardize_name(&too_long), Err(VaultError::ValidationError));
}

#[test]
fn normalizing_twice_is_normalizing_once() {
    for name in ["GLaDos", "chell", "X1y2Z3", "WHEATLEY"] {
        let once = validate_and_standardize_name(name).unwrap();
        let twice = validate_and_standardize_name(&once).unwrap();
        assert_eq!(once, twice);
    }
}
