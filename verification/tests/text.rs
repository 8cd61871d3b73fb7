use moesif_extproc::text::{
    chars_of, eq_ignore_ascii_case, is_whitespace, parse_usize, split_on, starts_with_char, trim,
};

#[test]
fn chars_of_lists_every_character() {
    assert_eq!(chars_of("a\u{e9}z"), vec!['a', '\u{e9}', 'z']);
    assert!(chars_of("").is_empty());
}

#[test]
fn split_on_agrees_with_std_split() {
    for s in ["", "a", "a,b", ",", "a,", ",a", "a,,b", "outbound|443||api.moesif.net", ",,,"] {
        for sep in [',', '|'] {
            let expected: Vec<String> = s.split(sep).map(|p| p.to_string()).collect();
            assert_eq!(split_on(s, sep), expected);
        }
    }
}

#[test]
fn split_on_keeps_empty_pieces() {
    assert_eq!(split_on("", ','), vec!["".to_string()]);
    assert_eq!(split_on("a,,b,", ','), vec!["a".to_string(), "".to_string(), "b".to_string(), "".to_string()]);
}

#[test]
fn trim_agrees_with_std_trim() {
    for s in ["", " ", "a", " a", "a ", "  a b  ", "\t\n a\r\n", "\u{a0}x\u{3000}", " \u{2003}é \u{85}", "   "] {
        assert_eq!(trim(s), s.trim().to_string());
    }
}

#[test]
fn is_whitespace_agrees_with_std_on_every_char() {
    let mut c: u32 = 0;
    while c <= 0x3100 {
        if let Some(ch) = char::from_u32(c) {
            assert_eq!(is_whitespace(ch), ch.is_whitespace());
        }
        c += 1;
    }
}

#[test]
fn parse_usize_reads_decimal_numbers() {
    assert_eq!(parse_usize("0"), Some(0));
    assert_eq!(parse_usize("503"), Some(503));
    assert_eq!(parse_usize("+5"), Some(5));
    assert_eq!(parse_usize("007"), Some(7));
    assert_eq!(parse_usize(&usize::MAX.to_string()), Some(usize::MAX));
}

#[test]
fn parse_usize_rejects_what_is_no_number() {
    assert_eq!(parse_usize(""), None);
    assert_eq!(parse_usize("+"), None);
    assert_eq!(parse_usize("-1"), None);
    assert_eq!(parse_usize("++1"), None);
    assert_eq!(parse_usize("1+"), None);
    assert_eq!(parse_usize(" 1"), None);
    assert_eq!(parse_usize("1 "), None);
    assert_eq!(parse_usize("12a"), None);
    assert_eq!(parse_usize("\u{661}"), None);
    assert_eq!(parse_usize("18446744073709551616"), None);
    assert_eq!(parse_usize("99999999999999999999999999"), None);
}

#[test]
fn parse_usize_agrees_with_std_parse() {
    for s in ["", "+", "-", "0", "+0", "-0", "10", "+10", "1_0", "4294967295", "4294967296", "18446744073709551615", "18446744073709551616", "abc", "１２"] {
        assert_eq!(parse_usize(s), s.parse::<usize>().ok());
    }
}

#[test]
fn eq_ignore_ascii_case_agrees_with_std() {
    let samples = ["", "a", "A", "X-Moesif-Config-Etag", "x-moesif-config-etag", "x-moesif-config-etaG", "é", "É", "k", "\u{212a}", "ab", "a@", "a`", "[", "{"];
    for a in samples {
        for b in samples {
            assert_eq!(eq_ignore_ascii_case(a, b), a.eq_ignore_ascii_case(b));
        }
    }
}

#[test]
fn starts_with_char_looks_at_the_first_character() {
    assert!(starts_with_char(":path", ':'));
    assert!(!starts_with_char("path:", ':'));
    assert!(!starts_with_char("", ':'));
}
