use stt::text::{
    chars_of, contains_char, decimal_of, eq_ignore_ascii_case, prefix_of, same_text,
    signed_decimal_of, string_of, to_ascii_lowercase, to_ascii_uppercase, trim,
};

#[test]
fn characters_make_up_a_text() {
    assert_eq!(chars_of("aé—"), vec!['a', 'é', '—']);
    assert_eq!(string_of(&vec!['a', 'é', '—']), "aé—");
    assert_eq!(string_of(&Vec::new()), "");
}

#[test]
fn texts_compare_by_characters() {
    assert!(same_text("de-DE", "de-DE"));
    assert!(!same_text("de-DE", "de-de"));
    assert!(!same_text("de", "de-DE"));
    assert!(same_text("", ""));
    assert!(contains_char("pt_BR", '_'));
    assert!(!contains_char("pt", '_'));
}

#[test]
fn case_folding_touches_ascii_letters_only() {
    assert_eq!(to_ascii_lowercase("ABZ-É9"), "abz-É9");
    assert_eq!(to_ascii_uppercase("abz-é9"), "ABZ-é9");
    assert!(eq_ignore_ascii_case("DB12c0", "db12C0"));
    assert!(!eq_ignore_ascii_case("É", "é"));
    assert!(!eq_ignore_ascii_case("db12c0", "db12c"));
}

#[test]
fn case_folding_agrees_with_std() {
    for text in ["", "Hello, World", "ÄÖÜ äöü", "0123[]{}@`"] {
        assert_eq!(to_ascii_lowercase(text), text.to_ascii_lowercase());
        assert_eq!(to_ascii_uppercase(text), text.to_ascii_uppercase());
    }
}

#[test]
fn trimming_agrees_with_std() {
    for text in ["", " ", "a", " a b \n", "\u{3000}x\u{a0}", "\t\r\n", "x\u{200b}"] {
        assert_eq!(trim(text), text.trim());
    }
    for code in 0..0x3100u32 {
        if let Some(c) = char::from_u32(code) {
            let text = format!("{c}x{c}");
            assert_eq!(trim(&text), text.trim());
        }
    }
}

#[test]
fn prefix_ends_at_the_first_hyphen() {
    assert_eq!(prefix_of("pt-BR"), "pt");
    assert_eq!(prefix_of("zh-Hans-CN"), "zh");
    assert_eq!(prefix_of("pt"), "pt");
    assert_eq!(prefix_of("-BR"), "");
    assert_eq!(prefix_of(""), "");
}

#[test]
fn numbers_read_as_std_writes_them() {
    for n in [0u64, 7, 10, 99, 1_045_975_323, u64::MAX] {
        assert_eq!(decimal_of(n), n.to_string());
    }
    for n in [0i32, 6, -1, -99, i32::MAX, i32::MIN] {
        assert_eq!(signed_decimal_of(n), n.to_string());
    }
}
