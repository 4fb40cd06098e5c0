use aefr::text::chars_of;
use aefr::text::decimal;
use aefr::text::eq_ignore_ascii_case;
use aefr::text::is_whitespace;
use aefr::text::parse_usize;
use aefr::text::same_text;
use aefr::text::split;
use aefr::text::split_once;
use aefr::text::string_of;
use aefr::text::strip_keyword;
use aefr::text::trim;
use aefr::text::without;
use aefr::text::words;

fn cs(s: &str) -> Vec<char> {
    s.chars().collect()
}

fn strings(parts: Vec<Vec<char>>) -> Vec<String> {
    parts.into_iter().map(|p| p.into_iter().collect()).collect()
}

#[test]
fn chars_and_strings_round_trip() {
    assert_eq!(chars_of("héllo\n"), vec!['h', 'é', 'l', 'l', 'o', '\n']);
    assert_eq!(string_of(&vec!['a', 'ß', '界']), "aß界");
    assert_eq!(string_of(&chars_of("")), "");
    assert!(same_text("Idle", "Idle"));
    assert!(!same_text("Idle", "idle"));
    assert!(!same_text("Idle", "Idle "));
}

#[test]
fn whitespace_is_the_unicode_property() {
    for c in [' ', '\t', '\n', '\u{b}', '\u{c}', '\r', '\u{85}', '\u{a0}', '\u{1680}', '\u{2000}',
        '\u{200a}', '\u{2028}', '\u{2029}', '\u{202f}', '\u{205f}', '\u{3000}']
    {
        assert!(is_whitespace(c));
        assert!(c.is_whitespace());
    }
    for c in ['a', '0', '\u{8}', '\u{e}', '\u{200b}', '\u{feff}', '\u{180e}', '|'] {
        assert!(!is_whitespace(c));
        assert!(!c.is_whitespace());
    }
}

#[test]
fn whitespace_agrees_with_std_on_every_char() {
    let mut u: u32 = 0;
    while u <= 0x10FFFF {
        if let Some(c) = char::from_u32(u) {
            assert_eq!(is_whitespace(c), c.is_whitespace());
        }
        u += 1;
    }
}

#[test]
fn trim_takes_whitespace_from_both_ends() {
    assert_eq!(trim(&cs("  LOAD 0 a  \n")), cs("LOAD 0 a"));
    assert_eq!(trim(&cs("\u{3000}x y\u{a0}")), cs("x y"));
    assert_eq!(trim(&cs("   ")), cs(""));
    assert_eq!(trim(&cs("")), cs(""));
    assert_eq!(trim(&cs("abc")), cs("abc"));
    for s in ["  a b ", "\t\t", "x", " \n x \r\n"] {
        assert_eq!(string_of(&trim(&cs(s))), s.trim());
    }
}

#[test]
fn keyword_is_read_in_any_case_and_needs_its_space() {
    assert_eq!(strip_keyword(&cs("LOAD 0 x"), &cs("LOAD")), Some(cs("0 x")));
    assert_eq!(strip_keyword(&cs("load 0 x"), &cs("LOAD")), Some(cs("0 x")));
    assert_eq!(strip_keyword(&cs("LoAd  x"), &cs("LOAD")), Some(cs(" x")));
    assert_eq!(strip_keyword(&cs("LOAD"), &cs("LOAD")), None);
    assert_eq!(strip_keyword(&cs("LOADX 0"), &cs("LOAD")), None);
    assert_eq!(strip_keyword(&cs("LOAD\t0"), &cs("LOAD")), None);
    assert_eq!(strip_keyword(&cs("BGM a"), &cs("BG")), None);
    assert!(eq_ignore_ascii_case(&cs("sToP"), &cs("STOP")));
    assert!(!eq_ignore_ascii_case(&cs("STOP!"), &cs("STOP")));
    assert!(!eq_ignore_ascii_case(&cs("ſTOP"), &cs("STOP")));
}

#[test]
fn without_removes_every_occurrence() {
    assert_eq!(without(&cs("\"chars/hina\""), '"'), cs("chars/hina"));
    assert_eq!(without(&cs("a\"b\"\"c"), '"'), cs("abc"));
    assert_eq!(without(&cs("plain"), '"'), cs("plain"));
    assert_eq!(without(&cs("\"\""), '"'), cs(""));
}

#[test]
fn split_once_cuts_at_the_first_delimiter() {
    assert_eq!(split_once(&cs("0 a b"), ' '), Some((cs("0"), cs("a b"))));
    assert_eq!(split_once(&cs(" x"), ' '), Some((cs(""), cs("x"))));
    assert_eq!(split_once(&cs("x "), ' '), Some((cs("x"), cs(""))));
    assert_eq!(split_once(&cs("nospace"), ' '), None);
    assert_eq!(split_once(&cs(""), ' '), None);
}

#[test]
fn split_keeps_empty_fields() {
    assert_eq!(strings(split(&cs("Alice|Factionless|Hello"), '|')), vec!["Alice", "Factionless", "Hello"]);
    assert_eq!(strings(split(&cs("a||"), '|')), vec!["a", "", ""]);
    assert_eq!(strings(split(&cs(""), '|')), vec![""]);
    assert_eq!(strings(split(&cs("|"), '|')), vec!["", ""]);
    for s in ["a|b", "|a|", "abc", "||||", "x|y|z|w"] {
        let expected: Vec<String> = s.split('|').map(|p| p.to_string()).collect();
        assert_eq!(strings(split(&cs(s), '|')), expected);
    }
}

#[test]
fn words_are_runs_without_whitespace() {
    assert_eq!(strings(words(&cs("0 Idle true"))), vec!["0", "Idle", "true"]);
    assert_eq!(strings(words(&cs("  0 \t Idle\u{3000}"))), vec!["0", "Idle"]);
    assert_eq!(strings(words(&cs("   "))), Vec::<String>::new());
    assert_eq!(strings(words(&cs(""))), Vec::<String>::new());
    for s in ["a b  c", " lead", "trail ", "one", "\ta\nb\r\nc "] {
        let expected: Vec<String> = s.split_whitespace().map(|p| p.to_string()).collect();
        assert_eq!(strings(words(&cs(s))), expected);
    }
}

#[test]
fn parse_usize_reads_decimal_digits() {
    assert_eq!(parse_usize(&cs("0")), Some(0));
    assert_eq!(parse_usize(&cs("4")), Some(4));
    assert_eq!(parse_usize(&cs("007")), Some(7));
    assert_eq!(parse_usize(&cs("+5")), Some(5));
    assert_eq!(parse_usize(&cs("1234567890")), Some(1234567890));
    assert_eq!(parse_usize(&cs("")), None);
    assert_eq!(parse_usize(&cs("+")), None);
    assert_eq!(parse_usize(&cs("-1")), None);
    assert_eq!(parse_usize(&cs(" 5")), None);
    assert_eq!(parse_usize(&cs("5 ")), None);
    assert_eq!(parse_usize(&cs("1x")), None);
    assert_eq!(parse_usize(&cs("++1")), None);
    assert_eq!(parse_usize(&cs("٣")), None);
}

#[test]
fn parse_usize_stops_at_the_machine_limit() {
    let max = usize::MAX.to_string();
    assert_eq!(parse_usize(&cs(&max)), Some(usize::MAX));
    let mut over = max.clone();
    over.push('0');
    assert_eq!(parse_usize(&cs(&over)), None);
    assert_eq!(parse_usize(&cs("99999999999999999999999999999999")), None);
    assert_eq!(parse_usize(&cs("18446744073709551616")), "18446744073709551616".parse::<usize>().ok());
    for s in ["0", "+0", "12", "+", "", "-0", "1_0", "18446744073709551615", "0000000000000000000000000001"] {
        assert_eq!(parse_usize(&cs(s)), s.parse::<usize>().ok());
    }
}

#[test]
fn decimal_writes_without_leading_zeros() {
    assert_eq!(string_of(&decimal(0)), "0");
    assert_eq!(string_of(&decimal(9)), "9");
    assert_eq!(string_of(&decimal(10)), "10");
    assert_eq!(string_of(&decimal(120)), "120");
    assert_eq!(string_of(&decimal(usize::MAX)), usize::MAX.to_string());
}

#[test]
fn decimal_and_parse_are_inverse() {
    for n in [0usize, 1, 9, 10, 99, 100, 4096, 65535, 1_000_000, usize::MAX] {
        assert_eq!(parse_usize(&decimal(n)), Some(n));
    }
}
