use sat_bench::report::{answer_key, answers_from_listing, is_text_less, tally, ListedFile, ParsedAnswer, RowCell};
use sat_bench::text::chars_of;

fn bench() -> Vec<(usize, String)> {
    vec![(1, "a.cnf".to_string()), (2, "b.cnf".to_string()), (3, "c.cnf".to_string()), (4, "a.cnf".to_string())]
}

fn answer(verdict: Option<bool>, strategy: &str) -> Option<ParsedAnswer> {
    Some(ParsedAnswer { verdict, strategy: strategy.to_string() })
}

#[test]
fn answer_files_name_problems() {
    let b = bench();
    assert_eq!(answer_key(&b, ".ans_b.cnf"), Some(1));
    assert_eq!(answer_key(&b, ".ans_a.cnf"), Some(0));
    assert_eq!(answer_key(&b, "b.cnf"), None);
    assert_eq!(answer_key(&b, ".ans_z.cnf"), None);
    assert_eq!(answer_key(&b, ".ans"), None);
}

#[test]
fn text_order_is_string_order() {
    for (a, b) in [("a", "b"), ("ab", "a"), ("", "x"), ("Stabilize", "Focus"), ("é", "z"), ("same", "same")] {
        assert_eq!(is_text_less(&chars_of(a), &chars_of(b)), a < b, "{} {}", a, b);
    }
}

#[test]
fn tally_counts_and_rows() {
    let b = bench();
    let answers = vec![
        (2, answer(None, "Stabilize")),
        (0, answer(Some(true), "Focus")),
        (1, None),
        (1, answer(Some(false), "Stabilize")),
    ];
    let t = tally(&b, &answers);
    assert_eq!((t.nsat, t.nunsat, t.found), (1, 1, 3));
    let names: Vec<(&str, (usize, usize))> = t.strategies.iter().map(|(s, c)| (s.as_str(), *c)).collect();
    assert_eq!(names, vec![("Focus", (1, 0)), ("Stabilize", (1, 1))]);
    assert_eq!(t.rows.len(), 4);
    let nsolved: Vec<usize> = t.rows.iter().map(|r| r.nsolved).collect();
    assert_eq!(nsolved, vec![1, 2, 2, 3]);
    assert!(matches!(&t.rows[0].cell, RowCell::Solved { entry: 1, sat: true, .. }));
    assert!(matches!(&t.rows[1].cell, RowCell::Solved { entry: 3, sat: false, .. }));
    match &t.rows[2].cell {
        RowCell::Unsolved { strategy } => assert_eq!(strategy, "Stabilize"),
        _ => panic!("problem 3 has an answer without verdict"),
    }
    // a second problem of the same name shares the answer of the first
    assert!(matches!(&t.rows[3].cell, RowCell::Solved { entry: 1, .. }));
    assert_eq!((t.rows[3].num, t.rows[3].key.as_str()), (4, "a.cnf"));
}

#[test]
fn tally_of_nothing() {
    let t = tally(&bench(), &vec![]);
    assert_eq!((t.nsat, t.nunsat, t.found), (0, 0, 0));
    assert!(t.strategies.is_empty());
    assert!(t.rows.iter().all(|r| matches!(r.cell, RowCell::Missing) && r.nsolved == 0));
}

#[test]
fn strategy_totals_match_answers() {
    let b = bench();
    let answers = vec![(0, answer(Some(true), "b")), (1, answer(None, "a")), (2, answer(Some(false), "c"))];
    let t = tally(&b, &answers);
    let solved: usize = t.strategies.iter().map(|(_, c)| c.0).sum();
    let unsolved: usize = t.strategies.iter().map(|(_, c)| c.1).sum();
    assert_eq!(solved, t.nsat + t.nunsat);
    assert_eq!(solved + unsolved, t.found);
    let names: Vec<&str> = t.strategies.iter().map(|(s, _)| s.as_str()).collect();
    assert_eq!(names, vec!["a", "b", "c"]);
}

#[test]
fn last_row_counts_all_decided_answers() {
    let b: Vec<(usize, String)> = (1..=5).map(|i| (i, format!("q{}.cnf", i))).collect();
    let answers = vec![
        (4, answer(Some(true), "x")),
        (0, None),
        (0, answer(None, "x")),
        (2, answer(Some(false), "y")),
        (1, answer(Some(true), "y")),
    ];
    let t = tally(&b, &answers);
    assert_eq!(t.rows.last().unwrap().nsolved, t.nsat + t.nunsat);
    assert_eq!(t.nsat + t.nunsat, 3);
}

fn shown(c: &RowCell) -> Option<(String, Option<bool>)> {
    match c {
        RowCell::Solved { strategy, sat, .. } => Some((strategy.clone(), Some(*sat))),
        RowCell::Unsolved { strategy } => Some((strategy.clone(), None)),
        RowCell::Missing => None,
    }
}

#[test]
fn tally_ignores_the_order_of_answer_files() {
    let b = bench();
    let first = vec![
        (2, answer(None, "Stabilize")),
        (0, answer(Some(true), "Focus")),
        (1, None),
        (1, answer(Some(false), "Stabilize")),
    ];
    let second = vec![
        (0, answer(Some(true), "Focus")),
        (2, answer(None, "Stabilize")),
        (1, None),
        (1, answer(Some(false), "Stabilize")),
    ];
    let t1 = tally(&b, &first);
    let t2 = tally(&b, &second);
    assert_eq!((t1.nsat, t1.nunsat, t1.found), (t2.nsat, t2.nunsat, t2.found));
    assert_eq!(t1.strategies, t2.strategies);
    for (r1, r2) in t1.rows.iter().zip(t2.rows.iter()) {
        assert_eq!((r1.num, &r1.key, r1.nsolved), (r2.num, &r2.key, r2.nsolved));
        assert_eq!(shown(&r1.cell), shown(&r2.cell));
    }
    assert!(matches!(&t2.rows[0].cell, RowCell::Solved { entry: 0, sat: true, .. }));
}

#[test]
fn listing_order_and_other_files_do_not_matter() {
    let b = bench();
    let first: Vec<ListedFile> = vec![
        (".ans_c.cnf".to_string(), answer(None, "Stabilize")),
        (".ans_a.cnf".to_string(), answer(Some(true), "Focus")),
        (".ans_b.cnf".to_string(), answer(Some(false), "Stabilize")),
    ];
    let second: Vec<ListedFile> = vec![
        ("notes.txt".to_string(), None),
        (".ans_b.cnf".to_string(), answer(Some(false), "Stabilize")),
        (".ans_z.cnf".to_string(), answer(Some(true), "Focus")),
        (".ans_a.cnf".to_string(), answer(Some(true), "Focus")),
        (".ans_c.cnf".to_string(), answer(None, "Stabilize")),
    ];
    let a1 = answers_from_listing(&b, first);
    let a2 = answers_from_listing(&b, second);
    assert_eq!(a1.iter().map(|e| e.0).collect::<Vec<_>>(), vec![2, 0, 1]);
    assert_eq!(a2.iter().map(|e| e.0).collect::<Vec<_>>(), vec![1, 0, 2]);
    let t1 = tally(&b, &a1);
    let t2 = tally(&b, &a2);
    assert_eq!((t1.nsat, t1.nunsat, t1.found), (1, 1, 3));
    assert_eq!((t1.nsat, t1.nunsat, t1.found), (t2.nsat, t2.nunsat, t2.found));
    assert_eq!(t1.strategies, t2.strategies);
    for (r1, r2) in t1.rows.iter().zip(t2.rows.iter()) {
        assert_eq!((r1.num, &r1.key, r1.nsolved), (r2.num, &r2.key, r2.nsolved));
        assert_eq!(shown(&r1.cell), shown(&r2.cell));
    }
}
