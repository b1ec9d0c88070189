use twitchbot::number::{decimal_string, hex_string, parse_i64};
use twitchbot::args::Args;
use twitchbot::economy::OtherBalance;
use twitchbot::text::{multiple, split_words};
use twitchbot::watcher::first_word;

#[test]
fn multiple_adds_s_unless_one() {
    assert_eq!(multiple("Zimbabwean Dollar", 1), "Zimbabwean Dollar");
    assert_eq!(multiple("Zimbabwean Dollar", 0), "Zimbabwean Dollars");
    assert_eq!(multiple("Zimbabwean Dollar", 2), "Zimbabwean Dollars");
    assert_eq!(multiple("Zimbabwean Dollar", -1), "Zimbabwean Dollars");
}

#[test]
fn split_words_drops_empty_pieces() {
    assert_eq!(split_words("  >hug   bob "), vec![">hug".to_string(), "bob".to_string()]);
    assert_eq!(split_words(""), Vec::<String>::new());
    assert_eq!(split_words("    "), Vec::<String>::new());
    assert_eq!(split_words(">dap"), vec![">dap".to_string()]);
}

#[test]
fn split_words_keeps_ascii_after_trimming() {
    assert_eq!(split_words("héllo wörld"), vec!["hllo".to_string(), "wrld".to_string()]);
    // A tab after a non-ASCII letter is inside the piece, so trimming keeps it.
    assert_eq!(split_words("é\ta"), vec!["\ta".to_string()]);
    // Unicode whitespace at the ends of a piece is trimmed.
    assert_eq!(split_words("\u{3000}x\u{3000}"), vec!["x".to_string()]);
    assert_eq!(split_words("\tx\n y"), vec!["x".to_string(), "y".to_string()]);
    assert_eq!(split_words("ééé a"), vec!["a".to_string()]);
}

#[test]
fn split_words_matches_the_word_rules() {
    let lines = [">hug  bob", " a b  c ", "x\u{2003}\u{2003}y z", "\u{85}q", "", "é"];
    for line in lines {
        let expected: Vec<String> = line
            .split(' ')
            .map(|s| s.trim().chars().filter(char::is_ascii).collect::<String>())
            .filter(|s| !s.is_empty())
            .collect();
        assert_eq!(split_words(line), expected, "line {line:?}");
    }
}

#[test]
fn decimal_string_formats() {
    assert_eq!(decimal_string(0), "0");
    assert_eq!(decimal_string(7), "7");
    assert_eq!(decimal_string(1000), "1000");
    assert_eq!(decimal_string(-1234), "-1234");
    assert_eq!(decimal_string(i64::MAX), i64::MAX.to_string());
    assert_eq!(decimal_string(i64::MIN), i64::MIN.to_string());
}

#[test]
fn hex_string_formats() {
    assert_eq!(hex_string(0), "0");
    assert_eq!(hex_string(10), "a");
    assert_eq!(hex_string(16), "10");
    assert_eq!(hex_string(255), "ff");
    for b in 0..=255u8 {
        assert_eq!(hex_string(b), format!("{:x}", b));
    }
}

#[test]
fn parse_i64_reads_like_std() {
    assert_eq!(parse_i64("42"), Some(42));
    assert_eq!(parse_i64("-42"), Some(-42));
    assert_eq!(parse_i64("+7"), Some(7));
    assert_eq!(parse_i64("007"), Some(7));
    assert_eq!(parse_i64(""), None);
    assert_eq!(parse_i64("-"), None);
    assert_eq!(parse_i64("+"), None);
    assert_eq!(parse_i64(" 1"), None);
    assert_eq!(parse_i64("1a"), None);
    assert_eq!(parse_i64("9223372036854775807"), Some(i64::MAX));
    assert_eq!(parse_i64("9223372036854775808"), None);
    assert_eq!(parse_i64("-9223372036854775808"), Some(i64::MIN));
    assert_eq!(parse_i64("-9223372036854775809"), None);
    assert_eq!(parse_i64("99999999999999999999999999"), None);
    for s in ["12", "-0", "+-1", "--1", "1_000", "٣", "all", "1000"] {
        assert_eq!(parse_i64(s), s.parse::<i64>().ok(), "text {s:?}");
    }
}

#[test]
fn decimal_then_parse_gives_back_the_number() {
    for n in [0, 1, -1, 1000, -999, i64::MAX, i64::MIN] {
        assert_eq!(parse_i64(&decimal_string(n)), Some(n));
    }
}

#[test]
fn lowercase_uses_unicode_case_mapping() {
    for (given, lower) in [("HeLLo", "hello"), ("ÉCOLE", "école"), ("$->", "$->")] {
        let mut a = Args::new(vec![given.to_string()]);
        assert_eq!(OtherBalance::target(&mut a).unwrap(), lower);
    }
}

#[test]
fn first_word_stops_at_the_first_space() {
    assert_eq!(first_word("uuh what"), "uuh");
    assert_eq!(first_word(" uuh"), "");
    assert_eq!(first_word("uuh"), "uuh");
    assert_eq!(first_word(""), "");
    assert_eq!(first_word("a\tb c"), "a\tb");
}
