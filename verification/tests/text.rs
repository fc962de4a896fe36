use testspectra::desktop::{choose_api_url, parse_api_url};
use testspectra::text::{
    char_ascii_lower, char_is_white_space, chars_before, chars_eq, chars_of, concat_texts,
    contains_string, contains_text, decimal_text, find_char, padded_integer_text,
    position_of_text, str_before, str_eq, str_eq_ignore_ascii_case, str_is_blank, strip_prefix,
    to_strings,
};
use testspectra::version::{min_client_version, version_response};

#[test]
fn white_space_is_what_trimming_removes() {
    for c in ['\u{0}', 'a', ' ', '\t', '\n', '\r', '\u{b}', '\u{c}', '\u{85}', '\u{a0}', '\u{1680}', '\u{2000}', '\u{200a}', '\u{200b}', '\u{2028}', '\u{2029}', '\u{202f}', '\u{205f}', '\u{3000}', '\u{feff}', '\u{1c}', '\u{180e}'] {
        assert_eq!(char_is_white_space(c), c.is_whitespace(), "{:?}", c);
    }
    for text in ["", " ", "\t \n", "\u{3000}", " a ", "a", "\u{200b}"] {
        assert_eq!(str_is_blank(text), text.trim().is_empty(), "{:?}", text);
    }
}

#[test]
fn texts_compare_up_to_the_case_of_ascii_letters() {
    for (a, b) in [("", ""), ("abc", "ABC"), ("abc", "abd"), ("abc", "ab"), ("Straße", "STRAßE"), ("é", "É"), ("k", "\u{212a}"), ("[", "{"), ("@", "`")] {
        assert_eq!(str_eq_ignore_ascii_case(a, b), a.eq_ignore_ascii_case(b), "{:?} {:?}", a, b);
    }
    assert_eq!(char_ascii_lower('A'), 'a');
    assert_eq!(char_ascii_lower('Z'), 'z');
    assert_eq!(char_ascii_lower('a'), 'a');
    assert_eq!(char_ascii_lower('['), '[');
    assert_eq!(char_ascii_lower('É'), 'É');
    assert!(str_eq("é", "é"));
    assert!(!str_eq("e", "é"));
}

#[test]
fn texts_are_ordered_as_in_a_dictionary() {
    let samples = ["", "a", "ab", "b", "TC-0001", "TC-0002", "TC-00021", "TC-10000", "TC-9999", "é", "z", "\u{10000}"];
    for a in samples {
        for b in samples {
            assert_eq!(str_before(a, b), a < b, "{:?} {:?}", a, b);
            assert_eq!(chars_before(&chars_of(a), &chars_of(b)), a < b);
            assert_eq!(chars_eq(&chars_of(a), &chars_of(b)), a == b);
        }
    }
}

#[test]
fn prefixes_are_stripped() {
    assert_eq!(strip_prefix("Bearer abc", "Bearer "), Some("abc".to_string()));
    assert_eq!(strip_prefix("Bearer ", "Bearer "), Some(String::new()));
    assert_eq!(strip_prefix("bearer abc", "Bearer "), None);
    assert_eq!(strip_prefix("Bear", "Bearer "), None);
    assert_eq!(strip_prefix("éa", "é"), Some("a".to_string()));
    assert_eq!(strip_prefix("x", ""), Some("x".to_string()));
    assert_eq!(concat_texts("ab", "cd"), "abcd");
    assert_eq!(chars_of("héllo"), vec!['h', 'é', 'l', 'l', 'o']);
}

#[test]
fn texts_are_found_in_lists() {
    let names = vec!["a", "b", "a"];
    assert!(contains_text(&names, "b"));
    assert!(!contains_text(&names, "c"));
    assert_eq!(position_of_text(&names, "a"), Some(0));
    assert_eq!(position_of_text(&names, "b"), Some(1));
    assert_eq!(position_of_text(&names, "c"), None);
    let owned = to_strings(&names);
    assert_eq!(owned, vec!["a".to_string(), "b".to_string(), "a".to_string()]);
    assert!(contains_string(&owned, "a"));
    assert!(!contains_string(&owned, ""));
    assert_eq!(find_char(&chars_of("a.b.c"), '.', 0), 1);
    assert_eq!(find_char(&chars_of("a.b.c"), '.', 2), 3);
    assert_eq!(find_char(&chars_of("a.b.c"), '.', 4), 5);
}

#[test]
fn numbers_are_written_in_decimal() {
    for n in [0u128, 1, 9, 10, 11, 99, 100, 12345, u64::MAX as u128, u128::MAX] {
        assert_eq!(decimal_text(n), format!("{}", n));
    }
    for n in [0i64, 1, -1, 7, 42, 999, 1000, 9999, 10000, -5, -999, -1000, i64::MAX, i64::MIN] {
        assert_eq!(padded_integer_text(n, 4), format!("{:04}", n));
        assert_eq!(padded_integer_text(n, 0), format!("{}", n));
        assert_eq!(padded_integer_text(n, 1), format!("{:01}", n));
        assert_eq!(padded_integer_text(n, 22), format!("{:022}", n));
    }
}

#[test]
fn the_oldest_client_version_keeps_two_parts() {
    for (version, oldest) in [("1.2.3", "1.2.0"), ("0.1.0", "0.1.0"), ("1.2", "1.2.0"), ("1", "1"), ("", ""), ("1.", "1..0"), (".", "..0"), ("1.2.3.4", "1.2.0"), ("1..3", "1..0")] {
        assert_eq!(min_client_version(version), oldest);
        let parts: Vec<&str> = version.split('.').collect();
        let expected = if parts.len() >= 2 {
            format!("{}.{}.0", parts[0], parts[1])
        } else {
            version.to_string()
        };
        assert_eq!(min_client_version(version), expected);
    }
    let response = version_response("2.5.9");
    assert_eq!(response.version, "2.5.9");
    assert_eq!(response.min_client_version, "2.5.0");
}

fn read_as_the_client_reads(content: &str) -> Option<String> {
    for line in content.lines() {
        let line = line.trim();
        if line.is_empty() || line.starts_with('#') {
            continue;
        }
        if let Some(rest) = line.strip_prefix("TEST_SPECTRA_API_URL=") {
            return Some(rest.trim().trim_matches('"').to_string());
        }
    }
    None
}

#[test]
fn the_address_of_the_server_is_read_from_the_settings() {
    let samples = [
        "",
        "\n",
        "TEST_SPECTRA_API_URL=http://localhost:3000",
        "TEST_SPECTRA_API_URL=http://localhost:3000\n",
        "# comment\n\n  TEST_SPECTRA_API_URL=  \"http://a\"  \r\nTEST_SPECTRA_API_URL=second\n",
        "#TEST_SPECTRA_API_URL=no\nOTHER=1\nTEST_SPECTRA_API_URL=\"\"quoted\"\"\"\n",
        "TEST_SPECTRA_API_URL=\"",
        "TEST_SPECTRA_API_URL=\"\"",
        "TEST_SPECTRA_API_URL=",
        "TEST_SPECTRA_API_URL",
        "X TEST_SPECTRA_API_URL=1\n\tTEST_SPECTRA_API_URL=\u{a0}x y\u{3000}",
        "a\rTEST_SPECTRA_API_URL=1\nTEST_SPECTRA_API_URL= \" z \" ",
        "test_spectra_api_url=lower\n\n\n",
        "TEST_SPECTRA_API_URL=\" \"",
    ];
    for content in samples {
        assert_eq!(parse_api_url(content), read_as_the_client_reads(content), "{:?}", content);
    }
    assert_eq!(
        parse_api_url("# c\nTEST_SPECTRA_API_URL=\"http://a\"\n"),
        Some("http://a".to_string())
    );
    assert_eq!(parse_api_url("nothing here"), None);
    assert_eq!(choose_api_url(Some("e".to_string()), Some("f".to_string())), "e");
    assert_eq!(choose_api_url(None, Some("f".to_string())), "f");
    assert_eq!(choose_api_url(None, None), "");
}
