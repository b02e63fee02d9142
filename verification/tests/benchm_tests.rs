use sat_bench::benchm::{
    answer_path, benchmark_for, check_result, expand_home, sorted_problems, HomePattern, family_from_matches, invocation, next_task, outcome_for,
    number_problems, record_solved, report_path, run_id, solver_command, solver_family, to_result, worker, BenchState,
    Config, Echo, Notice, SolverException, SolverFamily, SolverPatterns, WorkerAction, WorkerEvent,
};

fn bench(n: usize) -> Vec<(usize, String)> {
    (1..=n).map(|i| (i, format!("p{}.cnf", i))).collect()
}

fn config() -> Config {
    let mut c = Config::default();
    c.benchmark = bench(6);
    c.target_to = 6;
    c.data_dir = "/data".to_string();
    c.dump_dir = "run1".to_string();
    c
}

#[test]
fn default_config() {
    let c = Config::default();
    assert_eq!(c.benchmark_name, "SR19Core");
    assert_eq!(c.solver, "splr");
    assert_eq!((c.target_from, c.target_to, c.target_step), (0, 400, 1));
    assert_eq!((c.timeout, c.num_jobs, c.seq_num), (120, 2, 0));
    assert!(c.benchmark.is_empty() && c.matrix_token.is_none() && c.run_id.is_empty());
}

#[test]
fn record_lines() {
    let mut c = Config::default();
    c.timeout = 300;
    assert!(c.is_new_record("SR19Core", &(0, 10, 3)));
    assert!(!c.is_new_record("SR19Core", &(0, 10, 2)));
    assert!(!c.is_new_record("SR19Core", &(0, 11, 30)));
    assert!(c.is_new_record("SR19Core", &(0, 100, 33)));
    assert!(!c.is_new_record("SR19", &(0, 40, 30)));
    c.timeout = 200;
    assert!(c.is_new_record("SR19", &(0, 80, 9)));
    assert!(!c.is_new_record("SR19", &(0, 80, 8)));
    c.timeout = 400;
    assert!(c.is_new_record("SR19", &(0, 400, 38)));
    c.timeout = 100;
    assert!(c.is_new_record("SR19", &(0, 40, 7)));
    assert!(!c.is_new_record("SC18", &(0, 40, 100)));
}

#[test]
fn solver_families_by_name() {
    let p = SolverPatterns::new().expect("patterns compile");
    assert_eq!(solver_family(&p, "splr"), SolverFamily::Splr);
    assert_eq!(solver_family(&p, "/usr/bin/cadical"), SolverFamily::Cadical);
    assert_eq!(solver_family(&p, "glucose-syrup"), SolverFamily::Glucose);
    assert_eq!(solver_family(&p, "minisat"), SolverFamily::Other);
    assert_eq!(solver_family(&p, "xsplr"), SolverFamily::Other);
    assert_eq!(family_from_matches(false, true, true), SolverFamily::Cadical);
}

#[test]
fn solver_commands() {
    let p = SolverPatterns::new().unwrap();
    let mut c = config();
    c.timeout = 300;
    let cmd = solver_command(&c, &p);
    assert_eq!(cmd.program, "splr");
    assert_eq!(cmd.args, vec!["--to", "300", "-o", "run1", "-q"]);
    c.solver = "cadical".to_string();
    assert_eq!(solver_command(&c, &p).args, vec!["-t", "300", "--report=false"]);
    c.solver = "glucose".to_string();
    assert_eq!(solver_command(&c, &p).args, vec!["-verb=0", "-cpu-lim=300"]);
    c.solver = "kissat".to_string();
    assert!(solver_command(&c, &p).args.is_empty());
}

#[test]
fn invocation_adds_options_and_problem() {
    let p = SolverPatterns::new().unwrap();
    let mut c = config();
    c.solver = "glucose".to_string();
    c.timeout = 10;
    c.solver_options = " \\-rnd-init  -luby ".to_string();
    let cmd = invocation(&c, &p, "/data/p1.cnf");
    assert_eq!(cmd.program, "glucose");
    assert_eq!(cmd.args, vec!["-verb=0", "-cpu-lim=10", "-rnd-init", "-luby", "/data/p1.cnf"]);
}

#[test]
fn run_outcomes() {
    let ok = outcome_for(false, Some(0), "c SATISFIABLE: x.cnf", "");
    assert_eq!((ok.result, ok.dump_output, ok.echo), (Ok(()), false, Echo::Nothing));
    let ok = outcome_for(false, Some(0), "UNSAT: x.cnf", "");
    assert_eq!(ok.result, Ok(()));
    let t = outcome_for(false, Some(1), "TimeOut", "");
    assert_eq!((t.result, t.dump_output), (Err(SolverException::TimeOut), false));
    let t = outcome_for(true, Some(0), "c UNKNOWN", "");
    assert_eq!((t.result, t.dump_output), (Err(SolverException::TimeOut), true));
    let a = outcome_for(false, Some(101), "x", "thread 'main' panicked at");
    assert_eq!((a.result, a.echo), (Err(SolverException::Abort), Echo::Nothing));
    let s = outcome_for(true, Some(10), "s SATISFIABLE", "");
    assert_eq!((s.result, s.dump_output), (Ok(()), true));
    let u = outcome_for(true, Some(20), "s UNSATISFIABLE", "");
    assert_eq!((u.result, u.dump_output), (Ok(()), true));
    let u = outcome_for(false, Some(20), "s UNSATISFIABLE", "");
    assert_eq!((u.result, u.echo), (Err(SolverException::Abort), Echo::OutputAndError));
    let e = outcome_for(false, None, "same", "same");
    assert_eq!((e.result, e.echo), (Err(SolverException::Abort), Echo::Output));
}

#[test]
fn to_result_reads_the_solver_name() {
    let p = SolverPatterns::new().unwrap();
    let mut c = config();
    c.solver = "minisat".to_string();
    let o = to_result(&c, &p, Some(10), "s SATISFIABLE\n", "");
    assert_eq!((o.result, o.dump_output), (Ok(()), true));
    c.solver = "mysolver".to_string();
    let o = to_result(&c, &p, Some(10), "s SATISFIABLE\n", "");
    assert_eq!(o.result, Err(SolverException::Abort));
}

#[test]
fn queue_hands_out_in_order() {
    let mut c = config();
    c.target_from = 1;
    c.target_to = 6;
    c.target_step = 2;
    let mut st = BenchState::new(&c);
    assert_eq!(st.queue, vec![(6, "p6.cnf".to_string()), (4, "p4.cnf".to_string()), (2, "p2.cnf".to_string())]);
    assert_eq!(st.results.len(), 5);
    assert!(st.results.iter().all(|r| r.is_none()));
    assert_eq!(st.processed, (1, 0, 0));
    assert_eq!(next_task(&c, &mut st), Some((2, "/data/p2.cnf".to_string())));
    assert_eq!(st.processed.0, 2);
    assert_eq!(next_task(&c, &mut st), Some((4, "/data/p4.cnf".to_string())));
    assert_eq!(next_task(&c, &mut st), Some((6, "/data/p6.cnf".to_string())));
    assert_eq!(next_task(&c, &mut st), None);
    assert_eq!(st.processed.0, 6);
    assert!(st.queue.is_empty());
    assert_eq!(st.processed, (6, 0, 0));
    assert_eq!(next_task(&c, &mut st), None);
    assert_eq!(st.processed, (6, 0, 0));
}

#[test]
fn empty_range_needs_no_step() {
    let mut c = config();
    c.target_from = 9;
    c.target_step = 0;
    let st = BenchState::new(&c);
    assert!(st.queue.is_empty() && st.results.is_empty());
}

#[test]
fn worker_stores_then_takes_next() {
    let c = config();
    let mut st = BenchState::new(&c);
    match worker(&c, &mut st, WorkerEvent::Ready) {
        WorkerAction::Solve { index, cnf } => {
            assert_eq!((index, cnf.as_str()), (1, "/data/p1.cnf"));
        },
        WorkerAction::Quit => panic!("a task is left"),
    }
    let res = Some(("p1.cnf".to_string(), Ok(())));
    match worker(&c, &mut st, WorkerEvent::Finished { index: 1, result: res.clone() }) {
        WorkerAction::Solve { index, .. } => assert_eq!(index, 2),
        WorkerAction::Quit => panic!("a task is left"),
    }
    assert_eq!(st.results[0], res);
    st.queue.clear();
    assert!(matches!(worker(&c, &mut st, WorkerEvent::Ready), WorkerAction::Quit));
}

#[test]
fn monitor_reports_finished_tasks_in_order() {
    let mut c = config();
    c.num_jobs = 4;
    let mut st = BenchState::new(&c);
    st.processed.0 = 3;
    st.results[0] = Some(("p1.cnf".to_string(), Err(SolverException::TimeOut)));
    st.results[1] = Some(("p2.cnf".to_string(), Ok(())));
    st.results[3] = Some(("p4.cnf".to_string(), Ok(())));
    // index 0 is a multiple of 4: the pass stops there for the report
    let step = check_result(&c, &mut st, false);
    assert_eq!(step.report_at, Some(1));
    assert!(!step.new_solution);
    assert!(matches!(step.notices.as_slice(), [Notice::ClearLine]));
    assert_eq!(st.processed, (3, 1, 0));
    record_solved(&mut st, 0, 0);
    let step = check_result(&c, &mut st, step.new_solution);
    assert_eq!(step.report_at, None);
    assert!(step.new_solution);
    match step.notices.as_slice() {
        [Notice::ClearLine, Notice::Solution { task_id: 2, solved: 1, target }, Notice::Running { task_id: 3, last_queued: 3, target: next }] => {
            assert_eq!(target, "p2.cnf");
            assert_eq!(next, "p4.cnf");
        },
        _ => panic!("unexpected notices"),
    }
    assert_eq!(st.processed, (3, 2, 1));
    // nothing new: the same running notice
    let again = check_result(&c, &mut st, false);
    assert_eq!(st.processed, (3, 2, 1));
    assert!(matches!(again.notices.as_slice(), [Notice::Running { task_id: 3, .. }]));
    assert_eq!(again.report_at, None);
    assert!(!again.new_solution);
    // the pass stopped at the first unfinished task
    assert!(st.results[st.processed.1].is_none());
}

#[test]
fn monitor_posts_new_records() {
    let mut c = config();
    c.benchmark = bench(12);
    c.target_to = 12;
    c.timeout = 300;
    c.num_jobs = 7;
    let mut st = BenchState::new(&c);
    st.processed = (10, 9, 2);
    st.results[9] = Some(("p10.cnf".to_string(), Ok(())));
    let step = check_result(&c, &mut st, false);
    match step.notices.as_slice() {
        [Notice::ClearLine, Notice::Record { task_id: 10, solved: 3, .. }, Notice::Running { task_id: 11, .. }] => {},
        _ => panic!("expected a record"),
    }
}

#[test]
fn report_totals_replace_solved() {
    let c = config();
    let mut st = BenchState::new(&c);
    record_solved(&mut st, 3, 4);
    assert_eq!(st.processed, (0, 0, 7));
}

#[test]
fn names_and_paths() {
    assert_eq!(benchmark_for("SR19"), "SR19");
    assert_eq!(benchmark_for("SC18"), "SC18");
    assert_eq!(benchmark_for("SR20"), "SR19Core");
    let mut c = config();
    c.solver = "splr".to_string();
    assert_eq!(run_id(&c, "splr", "20200101", "abc123"), "splr-20200101-abc123");
    c.seq_num = 2;
    c.solver = "/opt/bin/cadical".to_string();
    assert_eq!(run_id(&c, "cadical", "20200101", ""), "cadical-20200101-2");
    assert_eq!(answer_path(&c, "p1.cnf"), "run1/.ans_p1.cnf");
    c.sync_dir = "/sync".to_string();
    c.run_id = "splr-1".to_string();
    assert_eq!(report_path(&c), "/sync/splr-1-SR19Core.csv");
}

#[test]
fn fit_range_cuts_to_length() {
    let mut c = config();
    c.target_to = 400;
    c.fit_range();
    assert_eq!(c.target_to, 6);
    c.target_to = 3;
    c.fit_range();
    assert_eq!(c.target_to, 3);
}

#[test]
fn problems_are_numbered_from_one() {
    let names = vec!["a.cnf".to_string(), "b.cnf".to_string(), "c.cnf".to_string()];
    let v = number_problems(&names);
    assert_eq!(v, vec![(1, "a.cnf".to_string()), (2, "b.cnf".to_string()), (3, "c.cnf".to_string())]);
    assert!(number_problems(&Vec::new()).is_empty());
}

#[test]
fn problem_files_are_sorted_and_numbered() {
    let names = vec!["c.cnf".to_string(), "a.cnf".to_string(), "b.cnf".to_string(), "B.cnf".to_string()];
    let v = sorted_problems(&names);
    assert_eq!(
        v,
        vec![(1, "B.cnf".to_string()), (2, "a.cnf".to_string()), (3, "b.cnf".to_string()), (4, "c.cnf".to_string())]
    );
    assert!(sorted_problems(&Vec::new()).is_empty());
}

#[test]
fn home_is_expanded_in_directories() {
    let p = HomePattern::new().expect("pattern compiles");
    assert_eq!(expand_home(&p, "~/Library/SAT/SR19", "/home/u"), "/home/u/Library/SAT/SR19");
    assert_eq!(expand_home(&p, "/data/~x/~y", "/h"), "/data//hx/~y");
    assert_eq!(expand_home(&p, "/data", "/h"), "/data");
    let mut c = config();
    c.data_dir = "~/data".to_string();
    c.sync_dir = "~/sync".to_string();
    c.repo_dir = "/repo".to_string();
    c.dump_dir = "~/dump".to_string();
    c.expand_dirs(&p, "/home/u");
    assert_eq!((c.data_dir.as_str(), c.sync_dir.as_str(), c.repo_dir.as_str()), ("/home/u/data", "/home/u/sync", "/repo"));
    assert_eq!(c.dump_dir, "~/dump");
}
