use mod_preset_compiler::normalize::normalize;

#[test]
fn normalize_strips_punctuation_and_prefixes() {
    assert_eq!(normalize("Some Mod!"), Some("@SomeMod".to_string()));
}

#[test]
fn normalize_keeps_a_single_leading_at() {
    assert_eq!(normalize("@Already-Clean"), Some("@AlreadyClean".to_string()));
}

#[test]
fn normalize_drops_names_without_alphanumerics() {
    assert_eq!(normalize("!!!"), None);
    assert_eq!(normalize(""), None);
    assert_eq!(normalize("@ - @"), None);
}

#[test]
fn normalize_keeps_unicode_letters_and_digits() {
    assert_eq!(normalize("Mod 2035 (beta)"), Some("@Mod2035beta".to_string()));
}
