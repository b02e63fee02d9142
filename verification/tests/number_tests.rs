use sat_bench::number::parses_as_float;

#[test]
fn float_texts_match_std() {
    let cases = [
        "12.5", "0", ".5", "5.", ".", "1.2.3", "", "1e5", "1E-3", "1e", "e5", "-3", "+.0", "inf",
        "-Infinity", "NaN", "nan1", " 1", "1 ", "0x10", "12..", "3.e2", "+-1", "infinit", "INF",
    ];
    for c in cases {
        assert_eq!(parses_as_float(c), c.parse::<f64>().is_ok(), "{:?}", c);
    }
}

#[test]
fn times_from_solvers_parse() {
    assert!(parses_as_float("123.45"));
    assert!(!parses_as_float("1.2.3"));
    assert!(!parses_as_float("..."));
}
