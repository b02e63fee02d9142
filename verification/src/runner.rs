//! A simple benchmark of solvers on sets of random 3-SAT problems, a few structured problems,
//! or given CNF files: which runs to make and how to start each one.
use vstd::prelude::*;
use crate::benchm::CommandLine;
use crate::pattern::{compile, is_match, regex_compiles, regex_is_match, Pattern};
use crate::text::{decimal, decimal_string, split_words, texts, unescape, unescaped, words};

verus! {

/// The configuration of a benchmark.
pub struct Config {
    /// the solvers to run
    pub solvers: Vec<String>,
    /// CNF files, separated by white space; when given, only these are run
    pub targets: String,
    /// the smallest number of variables of the 3-SAT sets to run
    pub range_from: usize,
    /// the largest number of variables of the 3-SAT sets to run
    pub range_to: usize,
    /// run the 3-SAT sets
    pub three_sat_set: bool,
    /// run the structured problems
    pub structured_set: bool,
    /// time out in seconds
    pub timeout: usize,
    /// a command run at the end
    pub terminate_hook: String,
    /// arguments passed to the solvers
    pub solver_options: String,
    /// the header line of the table
    pub header: String,
    /// a message added to the first line
    pub message: String,
    /// a suffix added to the solvers' names in the table
    pub aux_key: String,
}

/// The satisfiable 3-SAT sets: the number of variables and the directory.
pub open spec fn sat_problems() -> Seq<(usize, Seq<char>)> {
    seq![
        (100usize, "3-SAT/UF100"@),
        (125usize, "3-SAT/UF125"@),
        (150usize, "3-SAT/UF150"@),
        (175usize, "3-SAT/UF175"@),
        (200usize, "3-SAT/UF200"@),
        (225usize, "3-SAT/UF225"@),
        (250usize, "3-SAT/UF250"@),
    ]
}

/// The unsatisfiable 3-SAT sets.
pub open spec fn unsat_problems() -> Seq<(usize, Seq<char>)> {
    seq![(250usize, "3-SAT/UUF250"@)]
}

/// The structured problems: a short name and the file.
pub open spec fn structured_problems() -> Seq<(Seq<char>, Seq<char>)> {
    seq![
        ("itox"@, "SR2015/itox_vc1130.cnf"@),
        ("m283"@, "SR2015/manthey_DimacsSorter_28_3.cnf"@),
        ("38b"@, "SR2015/38bits_10.dimacs.cnf"@),
        ("44b"@, "SR2015/44bits_11.dimacs.cnf"@),
    ]
}

fn sat_problem_list() -> (v: Vec<(usize, &'static str)>)
    ensures
        v@.len() == sat_problems().len(),
        forall|i: int| 0 <= i < v@.len() ==> v@[i].0 == sat_problems()[i].0 && v@[i].1@ == sat_problems()[i].1,
{
    vec![
        (100, "3-SAT/UF100"),
        (125, "3-SAT/UF125"),
        (150, "3-SAT/UF150"),
        (175, "3-SAT/UF175"),
        (200, "3-SAT/UF200"),
        (225, "3-SAT/UF225"),
        (250, "3-SAT/UF250"),
    ]
}

fn unsat_problem_list() -> (v: Vec<(usize, &'static str)>)
    ensures
        v@.len() == unsat_problems().len(),
        forall|i: int| 0 <= i < v@.len() ==> v@[i].0 == unsat_problems()[i].0 && v@[i].1@ == unsat_problems()[i].1,
{
    vec![(250, "3-SAT/UUF250")]
}

fn structured_problem_list() -> (v: Vec<(&'static str, &'static str)>)
    ensures
        v@.len() == structured_problems().len(),
        forall|i: int| 0 <= i < v@.len() ==> v@[i].0@ == structured_problems()[i].0 && v@[i].1@ == structured_problems()[i].1,
{
    vec![
        ("itox", "SR2015/itox_vc1130.cnf"),
        ("m283", "SR2015/manthey_DimacsSorter_28_3.cnf"),
        ("38b", "SR2015/38bits_10.dimacs.cnf"),
        ("44b", "SR2015/44bits_11.dimacs.cnf"),
    ]
}

/// A run of one solver.
pub enum Job {
    /// the 3-SAT set of problems with `vars` variables: every file in `dir`
    ThreeSat { num: usize, vars: usize, dir: String },
    /// the problem called `name`: the files named by the words of its target
    Single { num: usize, name: String, files: Vec<String> },
}

/// A run as planned: a 3-SAT set (its number of variables and directory), or a problem (its
/// name and target).
pub enum Planned {
    Group(usize, Seq<char>),
    File(Seq<char>, Seq<char>),
}

/// The 3-SAT sets whose number of variables lies in the configured window, with their
/// directories under `base`.
pub open spec fn sets_in_window(config: Config, base: Seq<char>, sets: Seq<(usize, Seq<char>)>) -> Seq<Planned> {
    sets.filter(|p: (usize, Seq<char>)| config.range_from <= p.0 <= config.range_to).map_values(
        |p: (usize, Seq<char>)| Planned::Group(p.0, base + "/"@ + p.1),
    )
}

/// The runs of one solver, in order: the given targets when there are any; otherwise the
/// satisfiable and then the unsatisfiable 3-SAT sets in the window when asked for, followed
/// by the structured problems when asked for.
pub open spec fn planned(config: Config, base: Seq<char>) -> Seq<Planned> {
    if config.targets@.len() == 0 {
        (if config.three_sat_set {
            sets_in_window(config, base, sat_problems()) + sets_in_window(config, base, unsat_problems())
        } else {
            seq![]
        }) + (if config.structured_set {
            structured_problems().map_values(|p: (Seq<char>, Seq<char>)| Planned::File(p.0, base + "/"@ + p.1))
        } else {
            seq![]
        })
    } else {
        words(config.targets@).map_values(|t: Seq<char>| Planned::File(t, t))
    }
}

/// Which sets are run: given targets run alone, each as a problem; without them a 3-SAT set
/// is run only when asked for, and only with a number of variables inside the window, and a
/// structured problem only when asked for.
pub proof fn law_planned_sets(config: Config, base: Seq<char>)
    ensures
        config.targets@.len() > 0 ==> forall|i: int|
            0 <= i < planned(config, base).len() ==> #[trigger] planned(config, base)[i] is File,
        !config.three_sat_set ==> forall|i: int|
            0 <= i < planned(config, base).len() ==> !(#[trigger] planned(config, base)[i] is Group),
        !config.structured_set && config.targets@.len() == 0 ==> forall|i: int|
            0 <= i < planned(config, base).len() ==> #[trigger] planned(config, base)[i] is Group,
        forall|i: int|
            0 <= i < planned(config, base).len() ==> (#[trigger] planned(config, base)[i] matches Planned::Group(
                vars,
                _,
            ) ==> config.range_from <= vars <= config.range_to),
{
    let pred = |p: (usize, Seq<char>)| config.range_from <= p.0 <= config.range_to;
    let f = |p: (usize, Seq<char>)| Planned::Group(p.0, base + "/"@ + p.1);
    let sat = sat_problems().filter(pred);
    let unsat = unsat_problems().filter(pred);
    let sets = sat.map_values(f) + unsat.map_values(f);
    assert forall|i: int| 0 <= i < sets.len() implies (#[trigger] sets[i] matches Planned::Group(vars, _)
        && config.range_from <= vars <= config.range_to) by {
        if i < sat.len() {
            sat_problems().lemma_filter_pred(pred, i);
            assert(sets[i] == f(sat[i]));
        } else {
            unsat_problems().lemma_filter_pred(pred, i - sat.len());
            assert(sets[i] == f(unsat[i - sat.len()]));
        }
    }
}

/// `job` is run number `num` and carries out `p`.
pub open spec fn carries_out(job: Job, num: int, p: Planned) -> bool {
    match (job, p) {
        (Job::ThreeSat { num: k, vars, dir }, Planned::Group(n, d)) => k == num && vars == n && dir@ == d,
        (Job::Single { num: k, name, files }, Planned::File(m, t)) => k == num && name@ == m && texts(files@) == words(t),
        _ => false,
    }
}

fn push_sets(
    jobs: &mut Vec<Job>,
    config: &Config,
    base: &str,
    sets: &Vec<(usize, &'static str)>,
    Ghost(spec_sets): Ghost<Seq<(usize, Seq<char>)>>,
    Ghost(done): Ghost<Seq<Planned>>,
)
    requires
        old(jobs)@.len() == done.len(),
        old(jobs)@.len() + sets@.len() < usize::MAX,
        forall|i: int| 0 <= i < done.len() ==> carries_out(old(jobs)@[i], i + 1, done[i]),
        sets@.len() == spec_sets.len(),
        forall|i: int| 0 <= i < sets@.len() ==> sets@[i].0 == spec_sets[i].0 && sets@[i].1@ == spec_sets[i].1,
    ensures
        ({
            let all = done + sets_in_window(*config, base@, spec_sets);
            &&& final(jobs)@.len() == all.len()
            &&& forall|i: int| 0 <= i < all.len() ==> carries_out(final(jobs)@[i], i + 1, all[i])
        }),
        final(jobs)@.len() <= old(jobs)@.len() + sets@.len(),
{
    let ghost pred = |p: (usize, Seq<char>)| config.range_from <= p.0 <= config.range_to;
    let ghost f = |p: (usize, Seq<char>)| Planned::Group(p.0, base@ + "/"@ + p.1);
    let mut i: usize = 0;
    proof {
        reveal(Seq::filter);
        assert(spec_sets.take(0) =~= Seq::<(usize, Seq<char>)>::empty());
        reveal_strlit("/");
    }
    while i < sets.len()
        invariant
            i <= sets@.len(),
            sets@.len() == spec_sets.len(),
            forall|k: int| 0 <= k < sets@.len() ==> sets@[k].0 == spec_sets[k].0 && sets@[k].1@ == spec_sets[k].1,
            pred == (|p: (usize, Seq<char>)| config.range_from <= p.0 <= config.range_to),
            f == (|p: (usize, Seq<char>)| Planned::Group(p.0, base@ + "/"@ + p.1)),
            ({
                let all = done + spec_sets.take(i as int).filter(pred).map_values(f);
                &&& jobs@.len() == all.len()
                &&& forall|k: int| 0 <= k < all.len() ==> carries_out(jobs@[k], k + 1, all[k])
            }),
            jobs@.len() <= old(jobs)@.len() + i,
            old(jobs)@.len() + sets@.len() < usize::MAX,
            old(jobs)@.len() == done.len(),
        decreases sets@.len() - i,
    {
        let ghost before = spec_sets.take(i as int).filter(pred);
        proof {
            assert(spec_sets.take(i + 1) =~= spec_sets.take(i as int).push(spec_sets[i as int]));
            spec_sets.take(i as int).lemma_filter_push(spec_sets[i as int], pred);
        }
        let (vars, dir) = sets[i];
        if config.range_from <= vars && vars <= config.range_to {
            let mut path = String::from_str(base);
            path.append("/");
            path.append(dir);
            let num = jobs.len() + 1;
            jobs.push(Job::ThreeSat { num, vars, dir: path });
            assert(before.push(spec_sets[i as int]).map_values(f) =~= before.map_values(f).push(f(spec_sets[i as int])));
            assert(done + before.push(spec_sets[i as int]).map_values(f) =~= (done + before.map_values(f)).push(f(spec_sets[i as int])));
        }
        i = i + 1;
    }
    assert(spec_sets.take(i as int) =~= spec_sets);
}

/// The runs of one solver; `base` is the directory that holds the problem sets.
pub fn plan(config: &Config, base: &str) -> (jobs: Vec<Job>)
    ensures
        jobs@.len() == planned(*config, base@).len(),
        forall|i: int| 0 <= i < jobs@.len() ==> carries_out(jobs@[i], i + 1, planned(*config, base@)[i]),
{
    let mut jobs: Vec<Job> = Vec::new();
    proof {
        reveal_strlit("/");
    }
    if config.targets.as_str().is_empty() {
        let ghost mut done: Seq<Planned> = seq![];
        if config.three_sat_set {
            let sat = sat_problem_list();
            push_sets(&mut jobs, config, base, &sat, Ghost(sat_problems()), Ghost(done));
            proof {
                done = done + sets_in_window(*config, base@, sat_problems());
            }
            let unsat = unsat_problem_list();
            push_sets(&mut jobs, config, base, &unsat, Ghost(unsat_problems()), Ghost(done));
            proof {
                done = done + sets_in_window(*config, base@, unsat_problems());
                assert(done =~= seq![] + sets_in_window(*config, base@, sat_problems()) + sets_in_window(*config, base@, unsat_problems()));
            }
        }
        if config.structured_set {
            let list = structured_problem_list();
            let ghost f = |p: (Seq<char>, Seq<char>)| Planned::File(p.0, base@ + "/"@ + p.1);
            let ghost start = done;
            let mut i: usize = 0;
            while i < list.len()
                invariant
                    i <= list@.len(),
                    list@.len() == structured_problems().len(),
                    forall|k: int| 0 <= k < list@.len() ==> list@[k].0@ == structured_problems()[k].0
                        && list@[k].1@ == structured_problems()[k].1,
                    f == (|p: (Seq<char>, Seq<char>)| Planned::File(p.0, base@ + "/"@ + p.1)),
                    start.len() <= 8,
                    ({
                        let all = start + structured_problems().take(i as int).map_values(f);
                        &&& jobs@.len() == all.len()
                        &&& forall|k: int| 0 <= k < all.len() ==> carries_out(jobs@[k], k + 1, all[k])
                    }),
                decreases list@.len() - i,
            {
                let (name, file) = list[i];
                let mut target = String::from_str(base);
                target.append("/");
                target.append(file);
                let files = split_words(target.as_str());
                let num = jobs.len() + 1;
                jobs.push(Job::Single { num, name: String::from_str(name), files });
                assert(structured_problems().take(i + 1).map_values(f) =~= structured_problems().take(i as int).map_values(f).push(f(structured_problems()[i as int])));
                assert(start + structured_problems().take(i + 1).map_values(f) =~= (start + structured_problems().take(i as int).map_values(f)).push(f(structured_problems()[i as int])));
                i = i + 1;
            }
            proof {
                assert(structured_problems().take(4) =~= structured_problems());
                done = start + structured_problems().map_values(f);
            }
        }
        assert(done =~= planned(*config, base@));
    } else {
        let targets = split_words(config.targets.as_str());
        let ghost ws = words(config.targets@);
        let ghost f = |t: Seq<char>| Planned::File(t, t);
        let mut i: usize = 0;
        while i < targets.len()
            invariant
                i <= targets@.len(),
                texts(targets@) == ws,
                ws == words(config.targets@),
                f == (|t: Seq<char>| Planned::File(t, t)),
                jobs@.len() == i,
                forall|k: int| 0 <= k < i ==> carries_out(jobs@[k], k + 1, f(ws[k])),
            decreases targets@.len() - i,
        {
            let t = targets[i].as_str();
            assert(t@ == ws[i as int]);
            let files = split_words(t);
            let num = i + 1;
            jobs.push(Job::Single { num, name: String::from_str(t), files });
            i = i + 1;
        }
        assert(ws.map_values(f) =~= planned(*config, base@));
    }
    jobs
}

/// Source of the pattern that recognizes Splr.
pub open spec fn splr_source() -> Seq<char> {
    "\\bsplr"@
}

/// Source of the pattern that recognizes Glucose.
pub open spec fn glucose_source() -> Seq<char> {
    "\\bglucose"@
}

/// The compiled patterns that recognize solvers by name.
pub struct RunnerPatterns {
    splr: Pattern,
    glucose: Pattern,
}

impl RunnerPatterns {
    #[verifier::type_invariant]
    spec fn compiled_from_sources(self) -> bool {
        &&& self.splr@ == splr_source()
        &&& self.glucose@ == glucose_source()
    }

    /// Compiles the patterns; `None` when one of them does not compile.
    pub fn new() -> (p: Option<RunnerPatterns>)
        ensures
            p is Some <==> (regex_compiles(splr_source()) && regex_compiles(glucose_source())),
    {
        let splr = compile("\\bsplr");
        let glucose = compile("\\bglucose");
        match (splr, glucose) {
            (Some(splr), Some(glucose)) => Some(RunnerPatterns { splr, glucose }),
            _ => None,
        }
    }
}

/// The words that start `solver`, given whether its name matches the Splr and the Glucose
/// patterns: Splr reads the problem quietly from the argument, Glucose runs silent, and any
/// other solver takes no option.
pub open spec fn solver_words(solver: Seq<char>, splr: bool, glucose: bool) -> Seq<Seq<char>> {
    if splr {
        seq![solver, "-r"@, "-"@]
    } else if glucose {
        seq![solver, "-verb=0"@]
    } else {
        seq![solver]
    }
}

/// Appends the words that start `solver` to `args`, given the two pattern tests.
pub fn push_solver(args: &mut Vec<String>, solver: &str, splr: bool, glucose: bool)
    ensures
        texts(final(args)@) == texts(old(args)@) + solver_words(solver@, splr, glucose),
{
    let ghost before = args@;
    args.push(String::from_str(solver));
    if splr {
        args.push(String::from_str("-r"));
        args.push(String::from_str("-"));
    } else if glucose {
        args.push(String::from_str("-verb=0"));
    }
    assert(texts(args@) =~= texts(before) + solver_words(solver@, splr, glucose));
}

/// Appends the words that start `solver` to `args`.
pub fn set_solver(pats: &RunnerPatterns, args: &mut Vec<String>, solver: &str)
    ensures
        texts(final(args)@) == texts(old(args)@) + solver_words(
            solver@,
            regex_is_match(splr_source(), solver@),
            regex_is_match(glucose_source(), solver@),
        ),
{
    proof {
        use_type_invariant(pats);
    }
    let splr = is_match(&pats.splr, solver);
    let glucose = is_match(&pats.glucose, solver);
    push_solver(args, solver, splr, glucose);
}

/// The arguments of the `timeout` command that runs `solver` on `file`: the time limit,
/// the solver and its options, each option word without a leading backslash, and the file.
pub open spec fn run_args(config: Config, solver: Seq<char>, file: Seq<char>) -> Seq<Seq<char>> {
    seq![decimal(config.timeout as nat)] + solver_words(
        solver,
        regex_is_match(splr_source(), solver),
        regex_is_match(glucose_source(), solver),
    ) + words(config.solver_options@).map_values(|w: Seq<char>| unescaped(w)) + seq![file]
}

/// The command that runs `solver` on `file` under the time limit.
pub fn run_command(config: &Config, pats: &RunnerPatterns, solver: &str, file: &str) -> (c: CommandLine)
    ensures
        c.program@ == "timeout"@,
        texts(c.args@) == run_args(*config, solver@, file@),
{
    let mut args: Vec<String> = Vec::new();
    args.push(decimal_string(config.timeout));
    set_solver(pats, &mut args, solver);
    let ghost base = texts(args@);
    let opts = split_words(config.solver_options.as_str());
    let ghost ws = words(config.solver_options@);
    let mut i: usize = 0;
    while i < opts.len()
        invariant
            i <= opts@.len(),
            texts(opts@) == ws,
            texts(args@) == base + ws.take(i as int).map_values(|w: Seq<char>| unescaped(w)),
        decreases opts@.len() - i,
    {
        let ghost prev = args@;
        args.push(unescape(opts[i].as_str()));
        proof {
            assert(texts(opts@)[i as int] == opts@[i as int]@);
            assert(texts(args@) =~= texts(prev).push(unescaped(ws[i as int])));
            assert(ws.take(i + 1) =~= ws.take(i as int).push(ws[i as int]));
            assert(ws.take(i + 1).map_values(|w: Seq<char>| unescaped(w)) =~= ws.take(i as int).map_values(
                |w: Seq<char>| unescaped(w),
            ).push(unescaped(ws[i as int])));
        }
        i = i + 1;
    }
    assert(ws.take(i as int) =~= ws);
    let ghost before_file = args@;
    args.push(String::from_str(file));
    assert(texts(args@) =~= texts(before_file).push(file@));
    assert(texts(args@) =~= run_args(*config, solver@, file@));
    CommandLine { program: String::from_str("timeout"), args }
}

/// The name of `solver` in the table: followed by the auxiliary key.
pub fn solver_name(config: &Config, solver: &str) -> (name: String)
    ensures
        name@ == solver@ + config.aux_key@,
{
    let mut name = String::from_str(solver);
    name.append(config.aux_key.as_str());
    name
}

/// The end of the first line: the message after a comma, or nothing without a message.
pub fn extra_message(config: &Config) -> (m: String)
    ensures
        m@ == if config.message@.len() == 0 {
            Seq::<char>::empty()
        } else {
            ", "@ + config.message@
        },
{
    if config.message.as_str().is_empty() {
        String::new()
    } else {
        let mut m = String::from_str(", ");
        m.append(config.message.as_str());
        m
    }
}

/// What follows one run of a solver on a file.
#[derive(Debug, Clone, Copy, PartialEq, Eq, Structural)]
pub enum RunStep {
    /// the run succeeded: go on, with `count` successful runs so far
    Next { count: usize },
    /// the run failed: show a timeout line when `show_timeout`, and run nothing more of the set
    Stop { show_timeout: bool },
    /// the run failed: show a timeout line when `show_timeout`, and go on with the next file
    /// without showing a time
    Skip { show_timeout: bool },
}

/// What follows a run, after `count` successful runs: a success counts one more; a failure
/// ends a 3-SAT set (`whole_set`) and skips a single file; either way a failure shows a
/// timeout line exactly when the time limit was reached (`timed_out`).
pub fn after_run(count: usize, succeeded: bool, timed_out: bool, whole_set: bool) -> (s: RunStep)
    requires
        count < usize::MAX,
    ensures
        succeeded ==> s == (RunStep::Next { count: (count + 1) as usize }),
        !succeeded && whole_set ==> s == (RunStep::Stop { show_timeout: timed_out }),
        !succeeded && !whole_set ==> s == (RunStep::Skip { show_timeout: timed_out }),
{
    if succeeded {
        RunStep::Next { count: count + 1 }
    } else if whole_set {
        RunStep::Stop { show_timeout: timed_out }
    } else {
        RunStep::Skip { show_timeout: timed_out }
    }
}

} // verus!
