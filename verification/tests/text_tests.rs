use sat_bench::text::{contains, decimal_string, join_path, split_words, unescape, chars_of, same_text};

#[test]
fn split_words_on_unicode_space() {
    let w = split_words("  -cla-decay 0.9\t\\-x\u{3000}y  ");
    assert_eq!(w, vec!["-cla-decay".to_string(), "0.9".to_string(), "\\-x".to_string(), "y".to_string()]);
    assert!(split_words("").is_empty());
    assert!(split_words(" \n\t").is_empty());
}

#[test]
fn words_are_nonempty_and_without_space() {
    for w in split_words(" a  bb\u{85}ccc \u{a0}d ") {
        assert!(!w.is_empty());
        assert!(!w.chars().any(|c| c.is_whitespace()));
    }
}

#[test]
fn split_words_agrees_with_std() {
    for s in ["a b", "  x", "x  ", "\u{2028}p\u{2029}q\u{205f}", "one"] {
        let expected: Vec<String> = s.split_whitespace().map(|t| t.to_string()).collect();
        assert_eq!(split_words(s), expected);
    }
}

#[test]
fn decimal_numerals() {
    assert_eq!(decimal_string(0), "0");
    assert_eq!(decimal_string(7), "7");
    assert_eq!(decimal_string(300), "300");
    assert_eq!(decimal_string(1234567890), "1234567890");
    assert_eq!(decimal_string(usize::MAX), usize::MAX.to_string());
}

#[test]
fn join_paths_like_std() {
    assert_eq!(join_path("/data", "a.cnf"), "/data/a.cnf");
    assert_eq!(join_path("/data/", "a.cnf"), "/data/a.cnf");
    assert_eq!(join_path("", "a.cnf"), "a.cnf");
    assert_eq!(join_path("/data", "/abs/a.cnf"), "/abs/a.cnf");
    for (d, n) in [("x/y", "z"), ("x/", "z"), ("", "z"), ("x", "/z")] {
        let std_joined = std::path::PathBuf::from(d).join(n);
        assert_eq!(join_path(d, n), std_joined.to_string_lossy());
    }
}

#[test]
fn contains_finds_infixes() {
    let hay = chars_of("s SATISFIABLE: yes");
    assert!(contains(&hay, "SATISFIABLE: "));
    assert!(contains(&hay, ""));
    assert!(!contains(&hay, "UNSAT: "));
    assert!(!contains(&chars_of("ab"), "abc"));
}

#[test]
fn unescape_drops_one_backslash() {
    assert_eq!(unescape("\\-t"), "-t");
    assert_eq!(unescape("\\\\x"), "\\x");
    assert_eq!(unescape("-t"), "-t");
    assert_eq!(unescape(""), "");
}

#[test]
fn same_text_compares_characters() {
    assert!(same_text("SR19", "SR19"));
    assert!(!same_text("SR19", "SR19Core"));
}
