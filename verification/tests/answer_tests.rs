use sat_bench::answer::{
    answer_readable, checked_parse_result, checked_timed_result, classify_line, kind_of_matches, parse_result, scan_answer,
    timed_result, AnswerPatterns, LineKind,
};

fn lines(text: &str) -> Vec<String> {
    text.split_inclusive('\n').map(|l| l.to_string()).collect()
}

#[test]
fn lines_are_classified() {
    let p = AnswerPatterns::new().expect("patterns compile");
    assert!(matches!(classify_line(&p, "s SATISFIABLE\n"), Some(LineKind::Sat)));
    assert!(matches!(classify_line(&p, "s UNSATISFIABLE\n"), Some(LineKind::Unsat)));
    assert!(matches!(classify_line(&p, "c UNSATISFIABLEX\n"), Some(LineKind::Other)));
    match classify_line(&p, "c   Strategy|mode:  LowDecisions, time:  12.75\n") {
        Some(LineKind::Strategy { mode, time }) => {
            assert_eq!(mode, "LowDecisions");
            assert_eq!(time, "12.75");
        },
        _ => panic!("a strategy line"),
    }
    match classify_line(&p, "c CPU time              : 3.5 s\n") {
        Some(LineKind::CpuTime { time }) => assert_eq!(time, "3.5"),
        _ => panic!("a time line"),
    }
}

#[test]
fn splr_answer() {
    let p = AnswerPatterns::new().unwrap();
    let text = "c  Strategy|mode: Generic, time:  31.02\ns SATISFIABLE: x.cnf\nv 1 -2 0\n";
    let a = parse_result(&p, &lines(text)).unwrap();
    assert_eq!((a.time.as_str(), a.sat, a.strategy.as_str()), ("31.02", true, "Generic"));
}

#[test]
fn glucose_answer_keeps_last_time() {
    let p = AnswerPatterns::new().unwrap();
    let text = "c CPU time : 1.0 s\ns UNSATISFIABLE\nc CPU time : 2.5 s\nc CPU time : 1.2.3 s\n";
    let a = parse_result(&p, &lines(text)).unwrap();
    assert_eq!((a.time.as_str(), a.sat, a.strategy.as_str()), ("2.5", false, ""));
}

#[test]
fn answer_without_verdict() {
    let p = AnswerPatterns::new().unwrap();
    let text = "c  Strategy|mode: Stabilize, time:  300.00\nc UNKNOWN\n";
    assert!(parse_result(&p, &lines(text)).is_none());
    let t = timed_result(&p, &lines(text)).unwrap();
    assert_eq!((t.time.as_str(), t.verdict, t.strategy.as_str()), ("300.00", None, "Stabilize"));
    assert!(timed_result(&p, &lines("s SATISFIABLE\n")).is_none());
}

#[test]
fn second_verdict_is_an_error() {
    let p = AnswerPatterns::new().unwrap();
    let text = "s SATISFIABLE\ns UNSATISFIABLE\n";
    assert!(!answer_readable(&p, &lines(text)));
    assert!(checked_parse_result(&p, &lines(text)).is_none());
    assert!(checked_timed_result(&p, &lines(text)).is_none());
    assert!(answer_readable(&p, &lines("")));
    assert!(scan_answer(&p, &lines("")).found.is_none());
    let ok = "c CPU time : 4.25 s\ns SATISFIABLE\n";
    assert!(answer_readable(&p, &lines(ok)));
    let a = checked_parse_result(&p, &lines(ok)).unwrap().unwrap();
    assert_eq!((a.time.as_str(), a.sat), ("4.25", true));
    let t = checked_timed_result(&p, &lines(ok)).unwrap().unwrap();
    assert_eq!((t.time.as_str(), t.verdict), ("4.25", Some(true)));
}

#[test]
fn missing_group_is_reported() {
    let groups = vec![Some("c Strategy|mode: x, time: 1".to_string()), None, Some("1".to_string())];
    assert!(kind_of_matches(false, false, Some(groups), None).is_none());
    assert!(kind_of_matches(false, false, None, Some(vec![Some("c CPU time : 1".to_string())])).is_none());
    assert!(matches!(kind_of_matches(true, true, None, None), Some(LineKind::Sat)));
    assert!(matches!(kind_of_matches(false, false, None, None), Some(LineKind::Other)));
}
