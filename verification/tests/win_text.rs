use argb_core::text::{eq_ignore_ascii_case, lossy_string, text_eq, trim_owned};
use argb_core::win::wide;

#[test]
fn wide_strings_are_utf16_with_a_nul() {
    assert_eq!(wide("Ab"), vec![0x41, 0x62, 0]);
    assert_eq!(wide(""), vec![0]);
    assert_eq!(wide("é"), vec![0xE9, 0]);
    assert_eq!(wide("😀"), vec![0xD83D, 0xDE00, 0]);
    let name = "Local\\ArgbProMaster_ThermalDaemon";
    let expected: Vec<u16> = name.encode_utf16().chain(std::iter::once(0)).collect();
    assert_eq!(wide(name), expected);
}

#[test]
fn text_helpers() {
    assert!(text_eq("abc", "abc"));
    assert!(!text_eq("abc", "abd"));
    assert!(eq_ignore_ascii_case("DiReCt", "direct"));
    assert!(!eq_ignore_ascii_case("Direct", "Direct "));
    assert_eq!(trim_owned("  Aura 2 \t"), "Aura 2");
    assert_eq!(lossy_string(b"Mobo"), "Mobo");
    assert_eq!(lossy_string(&[0x4D, 0xFF]), "M\u{FFFD}");
}

#[test]
fn trim_drops_unicode_whitespace_only_at_the_ends() {
    assert_eq!(trim_owned("\u{3000}\u{85} Aura\u{A0}2 \u{2029}"), "Aura\u{A0}2");
    assert_eq!(trim_owned(" \t\n "), "");
    assert_eq!(trim_owned("x"), "x");
}
