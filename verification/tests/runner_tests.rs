use sat_bench::runner::{after_run, extra_message, plan, run_command, set_solver, solver_name, Config, Job, RunStep, RunnerPatterns};

fn config() -> Config {
    Config {
        solvers: vec!["splr".to_string()],
        targets: String::new(),
        range_from: 200,
        range_to: 250,
        three_sat_set: true,
        structured_set: false,
        timeout: 510,
        terminate_hook: "finished".to_string(),
        solver_options: String::new(),
        header: String::new(),
        message: String::new(),
        aux_key: String::new(),
    }
}

#[test]
fn three_sat_sets_in_window() {
    let jobs = plan(&config(), "/base");
    let got: Vec<(usize, usize, String)> = jobs
        .iter()
        .map(|j| match j {
            Job::ThreeSat { num, vars, dir } => (*num, *vars, dir.clone()),
            _ => panic!("only 3-SAT sets"),
        })
        .collect();
    assert_eq!(
        got,
        vec![
            (1, 200, "/base/3-SAT/UF200".to_string()),
            (2, 225, "/base/3-SAT/UF225".to_string()),
            (3, 250, "/base/3-SAT/UF250".to_string()),
            (4, 250, "/base/3-SAT/UUF250".to_string()),
        ]
    );
}

#[test]
fn structured_after_sets() {
    let mut c = config();
    c.range_from = 100;
    c.range_to = 100;
    c.structured_set = true;
    let jobs = plan(&c, "/b");
    assert_eq!(jobs.len(), 5);
    match &jobs[1] {
        Job::Single { num, name, files } => {
            assert_eq!((*num, name.as_str()), (2, "itox"));
            assert_eq!(files, &vec!["/b/SR2015/itox_vc1130.cnf".to_string()]);
        },
        _ => panic!("a structured problem"),
    }
}

#[test]
fn given_targets_replace_sets() {
    let mut c = config();
    c.targets = " x.cnf  y.cnf ".to_string();
    c.structured_set = true;
    let jobs = plan(&c, "/b");
    assert_eq!(jobs.len(), 2);
    match &jobs[1] {
        Job::Single { num, name, files } => {
            assert_eq!((*num, name.as_str()), (2, "y.cnf"));
            assert_eq!(files, &vec!["y.cnf".to_string()]);
        },
        _ => panic!("a target"),
    }
}

#[test]
fn solver_arguments() {
    let p = RunnerPatterns::new().expect("patterns compile");
    let mut args = Vec::new();
    set_solver(&p, &mut args, "splr");
    assert_eq!(args, vec!["splr", "-r", "-"]);
    let mut args = Vec::new();
    set_solver(&p, &mut args, "glucose");
    assert_eq!(args, vec!["glucose", "-verb=0"]);
    let mut args = Vec::new();
    set_solver(&p, &mut args, "lingeling");
    assert_eq!(args, vec!["lingeling"]);
    let mut c = config();
    c.solver_options = "\\-cla-decay 0.9".to_string();
    let cmd = run_command(&c, &p, "glucose", "f.cnf");
    assert_eq!(cmd.program, "timeout");
    assert_eq!(cmd.args, vec!["510", "glucose", "-verb=0", "-cla-decay", "0.9", "f.cnf"]);
}

#[test]
fn names_and_messages() {
    let mut c = config();
    c.aux_key = "-b".to_string();
    assert_eq!(solver_name(&c, "splr"), "splr-b");
    assert_eq!(extra_message(&c), "");
    c.message = "tuned".to_string();
    assert_eq!(extra_message(&c), ", tuned");
}

#[test]
fn run_steps() {
    assert_eq!(after_run(3, true, false, true), RunStep::Next { count: 4 });
    assert_eq!(after_run(3, true, true, false), RunStep::Next { count: 4 });
    assert_eq!(after_run(3, false, true, true), RunStep::Stop { show_timeout: true });
    assert_eq!(after_run(0, false, false, true), RunStep::Stop { show_timeout: false });
    assert_eq!(after_run(0, false, true, false), RunStep::Skip { show_timeout: true });
    assert_eq!(after_run(0, false, false, false), RunStep::Skip { show_timeout: false });
}
