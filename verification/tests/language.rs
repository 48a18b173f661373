use pinokio::chromium::{is_language_tag, language_args};

#[test]
fn tags() {
    for tag in ["fr", "fr-FR", "zh-Hant-TW", "x", "12345678", "a1-b2"] {
        assert!(is_language_tag(tag), "{}", tag);
    }
    for tag in ["", "-", "fr-", "-fr", "fr--FR", "123456789", "fr_FR", "fr FR", "é"] {
        assert!(!is_language_tag(tag), "{}", tag);
    }
    assert!(is_language_tag("12345678-12345678-12345678-12345678"));
    assert!(!is_language_tag("12345678-12345678-12345678-12345678-1"));
}

fn args(raw: &str) -> Option<(String, String)> {
    language_args(raw)
}

fn pair(a: &str, b: &str) -> Option<(String, String)> {
    Some((a.to_string(), b.to_string()))
}

#[test]
fn locales() {
    assert_eq!(args("fr-FR:fr"), pair("fr-FR", "fr-FR,fr"));
    assert_eq!(args("fr-FR,fr"), pair("fr-FR", "fr-FR,fr"));
    assert_eq!(args("fr-FR"), pair("fr-FR", "fr-FR,fr"));
    assert_eq!(args("fr"), pair("fr", "fr"));
    assert_eq!(args(" de-DE , en "), pair("de-DE", "de-DE,en,de"));
    assert_eq!(args("fr-FR,FR"), pair("fr-FR", "fr-FR,FR"));
    assert_eq!(args("!!,en-US,,fr_FR"), pair("en-US", "en-US,en"));
    assert_eq!(args("fr-FR,fr-FR"), pair("fr-FR", "fr-FR,fr-FR,fr"));
    assert_eq!(args(""), None);
    assert_eq!(args("en_US.UTF-8"), None);
}

#[test]
fn locale_of_a_locale_is_itself() {
    for raw in ["fr-FR", "de-DE,en", "x:y:z-1"] {
        let (primary, accept) = args(raw).unwrap();
        assert_eq!(args(&accept), Some((primary, accept)));
    }
}
