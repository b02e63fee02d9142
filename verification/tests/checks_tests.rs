use sat_bench::benchm::{can_check, can_start_run, record_defined_at, BenchState, Config, SolverException};
use sat_bench::report::{answers_are_unique, ParsedAnswer};

fn config() -> Config {
    let mut c = Config::default();
    c.benchmark = (1..=120).map(|i| (i, format!("p{}.cnf", i))).collect();
    c.target_to = 120;
    c
}

#[test]
fn record_line_bounds() {
    let mut c = config();
    c.timeout = 300;
    assert!(!record_defined_at(&c, 0));
    assert!(record_defined_at(&c, 10));
    assert!(record_defined_at(&c, 100));
    assert!(!record_defined_at(&c, 110));
    assert!(record_defined_at(&c, 111));
    c.benchmark_name = "SR19".to_string();
    c.timeout = 200;
    assert!(record_defined_at(&c, 400));
    assert!(!record_defined_at(&c, 440));
    c.timeout = 120;
    assert!(record_defined_at(&c, 0));
}

#[test]
fn monitor_pass_checks() {
    let mut c = config();
    let mut st = BenchState::new(&c);
    assert!(can_check(&c, &st));
    st.results[0] = Some(("p1.cnf".to_string(), Ok(())));
    c.num_jobs = 0;
    assert!(!can_check(&c, &st));
    c.num_jobs = 2;
    assert!(can_check(&c, &st));
    c.timeout = 300;
    st.processed.1 = 109;
    st.results[109] = Some(("p110.cnf".to_string(), Err(SolverException::Abort)));
    c.num_jobs = 7;
    assert!(!can_check(&c, &st));
}

#[test]
fn start_checks() {
    let mut c = config();
    c.target_step = 0;
    assert!(!can_start_run(&c));
    c.target_from = 200;
    assert!(can_start_run(&c));
    c.target_from = 0;
    c.target_step = 3;
    assert!(can_start_run(&c));
}

#[test]
fn unique_answers() {
    let some = || Some(ParsedAnswer { verdict: Some(true), strategy: String::new() });
    assert!(answers_are_unique(&vec![(0, None), (0, some()), (1, some())]));
    assert!(!answers_are_unique(&vec![(0, some()), (1, None), (0, None)]));
    assert!(answers_are_unique(&vec![]));
}
