//! The benchmark runner: configuration, the task queue shared by the workers, the monitor
//! that reports finished tasks in order, and the decisions taken on a solver's output.
use vstd::prelude::*;
use crate::pattern::{compile, is_match, regex_compiles, regex_is_match, regex_replace, replace, Pattern};
use crate::report::{
    is_text_less, lemma_text_less_irreflexive, lemma_text_less_total, lemma_text_less_transitive, text_less,
};
use crate::text::{
    chars_of, contains, decimal, decimal_string, has_infix, is_absolute, join_path, joined, same_text,
    split_words, texts, unescape, unescaped, words,
};

verus! {

/// Abnormal termination flags.
#[derive(Debug, Clone, Copy, PartialEq, Eq, Structural)]
pub enum SolverException {
    TimeOut,
    Abort,
}

/// The configuration of a benchmark run.
#[derive(Clone, Debug)]
pub struct Config {
    /// the benchmark set: `SR19Core`, `SR19` or `SC18`
    pub benchmark_name: String,
    /// a branch number
    pub seq_num: usize,
    /// the problems: their numbers (from 1) and file names
    pub benchmark: Vec<(usize, String)>,
    /// the solver
    pub solver: String,
    /// start of the range of target problems
    pub target_from: usize,
    /// end of the range of target problems
    pub target_to: usize,
    /// only the problems whose number is a multiple of this are run
    pub target_step: usize,
    /// time out in seconds
    pub timeout: usize,
    /// number of workers
    pub num_jobs: usize,
    /// arguments passed to the solver
    pub solver_options: String,
    /// data directory
    pub data_dir: String,
    /// solver repository
    pub repo_dir: String,
    /// cloud sharing directory
    pub sync_dir: String,
    /// cloud sync command
    pub sync_cmd: String,
    /// the run whose report is to be rebuilt
    pub rereport: String,
    /// the directory that receives the solvers' answers
    pub dump_dir: String,
    /// an identifier for the run
    pub run_id: String,
    /// host
    pub host: String,
    /// user id to post to Matrix
    pub matrix_id: String,
    /// user password to post to Matrix
    pub matrix_password: String,
    /// the Matrix room
    pub matrix_room: String,
    /// the Matrix access token
    pub matrix_token: Option<String>,
}

impl Default for Config {
    /// The settings used when nothing is given: `splr` on `SR19Core` with 2 jobs, a timeout
    /// of 120 seconds and targets 0 to 400 with step 1. The problem list of `SR19Core` is not
    /// bundled with this library, so the list starts empty; a program fills it, for instance
    /// with `sorted_problems` over the files of the set.
    fn default() -> (c: Config)
        ensures
            c.benchmark_name@ == "SR19Core"@,
            c.seq_num == 0,
            c.benchmark@.len() == 0,
            c.solver@ == "splr"@,
            c.target_from == 0,
            c.target_to == 400,
            c.target_step == 1,
            c.timeout == 120,
            c.num_jobs == 2,
            c.solver_options@.len() == 0,
            c.data_dir@.len() == 0,
            c.repo_dir@.len() == 0,
            c.sync_dir@.len() == 0,
            c.sync_cmd@.len() == 0,
            c.rereport@.len() == 0,
            c.dump_dir@.len() == 0,
            c.run_id@.len() == 0,
            c.host@.len() == 0,
            c.matrix_id@.len() == 0,
            c.matrix_password@.len() == 0,
            c.matrix_room@.len() == 0,
            c.matrix_token is None,
    {
        Config {
            benchmark_name: String::from_str("SR19Core"),
            seq_num: 0,
            benchmark: Vec::new(),
            solver: String::from_str("splr"),
            target_from: 0,
            target_to: 400,
            target_step: 1,
            timeout: 120,
            num_jobs: 2,
            solver_options: String::new(),
            data_dir: String::new(),
            repo_dir: String::new(),
            sync_dir: String::new(),
            sync_cmd: String::new(),
            rereport: String::new(),
            dump_dir: String::new(),
            run_id: String::new(),
            host: String::new(),
            matrix_id: String::new(),
            matrix_password: String::new(),
            matrix_room: String::new(),
            matrix_token: None,
        }
    }
}

/// The problems of a set whose files are `names`: each numbered from 1 in the order given.
pub fn number_problems(names: &Vec<String>) -> (v: Vec<(usize, String)>)
    requires
        names@.len() < usize::MAX,
    ensures
        v@.len() == names@.len(),
        forall|i: int| 0 <= i < names@.len() ==> v@[i].0 == i + 1 && (#[trigger] v@[i]).1@ == names@[i]@,
{
    let mut v: Vec<(usize, String)> = Vec::new();
    let mut i: usize = 0;
    while i < names.len()
        invariant
            i == v@.len(),
            i <= names@.len(),
            names@.len() < usize::MAX,
            forall|j: int| 0 <= j < i ==> v@[j].0 == j + 1 && (#[trigger] v@[j]).1@ == names@[j]@,
        decreases names@.len() - i,
    {
        v.push((i + 1, names[i].clone()));
        i = i + 1;
    }
    v
}

/// The names of the problems `v`.
pub open spec fn problem_names(v: Seq<(usize, String)>) -> Seq<Seq<char>> {
    v.map_values(|p: (usize, String)| p.1@)
}

/// No name of `t` comes before an earlier one.
pub open spec fn names_sorted(t: Seq<Seq<char>>) -> bool {
    forall|i: int, j: int| 0 <= i < j < t.len() ==> !text_less(t[j], t[i])
}

proof fn lemma_insert_sorted(t: Seq<Seq<char>>, pos: int, x: Seq<char>)
    requires
        names_sorted(t),
        0 <= pos <= t.len(),
        forall|k: int| 0 <= k < pos ==> !text_less(x, t[k]),
        pos < t.len() ==> text_less(x, t[pos]),
    ensures
        names_sorted(t.insert(pos, x)),
{
    let u = t.insert(pos, x);
    assert forall|k: int| pos <= k < t.len() implies text_less(x, t[k]) by {
        if k > pos && t[k] != t[pos] {
            lemma_text_less_total(t[k], t[pos]);
            lemma_text_less_transitive(x, t[pos], t[k]);
        }
    }
    assert forall|i: int, j: int| 0 <= i < j < u.len() implies !text_less(u[j], u[i]) by {
        if i == pos {
            if text_less(u[j], x) {
                lemma_text_less_transitive(x, u[j], x);
                lemma_text_less_irreflexive(x);
            }
        }
    }
}

/// The problems of a set whose files are `names`: the names in increasing order, each
/// numbered from 1.
pub fn sorted_problems(names: &Vec<String>) -> (v: Vec<(usize, String)>)
    requires
        names@.len() < usize::MAX,
    ensures
        v@.len() == names@.len(),
        forall|i: int| 0 <= i < v@.len() ==> (#[trigger] v@[i]).0 == i + 1,
        names_sorted(problem_names(v@)),
        problem_names(v@).to_multiset() == texts(names@).to_multiset(),
{
    let mut sorted: Vec<String> = Vec::new();
    let mut i: usize = 0;
    assert(texts(names@).take(0) =~= texts(sorted@));
    while i < names.len()
        invariant
            i <= names@.len(),
            sorted@.len() == i,
            names_sorted(texts(sorted@)),
            texts(sorted@).to_multiset() == texts(names@).take(i as int).to_multiset(),
        decreases names@.len() - i,
    {
        let name = names[i].clone();
        let key = chars_of(name.as_str());
        let mut pos: usize = 0;
        while pos < sorted.len()
            invariant
                pos <= sorted@.len(),
                key@ == name@,
                forall|k: int| 0 <= k < pos ==> !text_less(name@, texts(sorted@)[k]),
            ensures
                pos <= sorted@.len(),
                forall|k: int| 0 <= k < pos ==> !text_less(name@, texts(sorted@)[k]),
                pos < sorted@.len() ==> text_less(name@, texts(sorted@)[pos as int]),
            decreases sorted@.len() - pos,
        {
            let other = chars_of(sorted[pos].as_str());
            if is_text_less(&key, &other) {
                break;
            }
            pos = pos + 1;
        }
        let ghost before = texts(sorted@);
        proof {
            lemma_insert_sorted(before, pos as int, name@);
            texts(names@).take(i as int).to_multiset_ensures();
            before.to_multiset_ensures();
            vstd::seq_lib::to_multiset_insert(before, pos as int, name@);
            assert(texts(names@).take(i + 1) =~= texts(names@).take(i as int).push(name@));
        }
        sorted.insert(pos, name);
        assert(texts(sorted@) =~= before.insert(pos as int, names@[i as int]@));
        i = i + 1;
    }
    assert(texts(names@).take(i as int) =~= texts(names@));
    let v = number_problems(&sorted);
    assert(problem_names(v@) =~= texts(sorted@));
    v
}

/// The record line of a benchmark set under a timeout: a check happens every `period`
/// reported problems, and the `k`-th check (from 1) is a new record when more than
/// `thresholds[k - 1]` problems are solved.
pub open spec fn record_line(bench: Seq<char>, timeout: usize) -> Option<(nat, Seq<int>)> {
    if bench == "SR19Core"@ && timeout == 300 {
        Some((10, seq![2, 8, 11, 11, 16, 16, 17, 24, 31, 32]))
    } else if bench == "SR19"@ && timeout == 100 {
        Some((40, seq![6, 8, 11, 12, 12, 16, 17, 18, 22, 29]))
    } else if bench == "SR19"@ && timeout == 200 {
        Some((40, seq![6, 8, 12, 14, 14, 18, 21, 23, 35, 36]))
    } else if bench == "SR19"@ && timeout == 400 {
        Some((40, seq![10, 15, 17, 19, 20, 25, 28, 32, 37, 37]))
    } else {
        None
    }
}

/// The record line has an entry for `reported` problems wherever a check falls on it.
pub open spec fn record_defined(bench: Seq<char>, timeout: usize, reported: int) -> bool {
    match record_line(bench, timeout) {
        Some((period, thresholds)) => reported % (period as int) == 0 ==> 1 <= reported / (
        period as int) <= thresholds.len(),
        None => true,
    }
}

/// `solved` problems out of `reported` beat the record line of `bench` under `timeout`.
pub open spec fn beats_record(bench: Seq<char>, timeout: usize, reported: int, solved: int) -> bool {
    match record_line(bench, timeout) {
        Some((period, thresholds)) => reported % (period as int) == 0 && thresholds[reported / (
        period as int) - 1] < solved,
        None => false,
    }
}

fn threshold(table: &Vec<usize>, k: usize) -> (t: usize)
    requires
        k < table@.len(),
    ensures
        t == table@[k as int],
{
    table[k]
}

impl Config {
    /// Whether the counters `r` = (last queued, reported, solved) beat the record line of
    /// `bench` under this configuration's timeout.
    pub fn is_new_record(&self, bench: &str, r: &(usize, usize, usize)) -> (b: bool)
        requires
            record_defined(bench@, self.timeout, r.1 as int),
        ensures
            b == beats_record(bench@, self.timeout, r.1 as int, r.2 as int),
    {
        let core = same_text(bench, "SR19Core");
        let sr19 = same_text(bench, "SR19");
        if core && self.timeout == 300 && r.1 % 10 == 0 {
            let table: Vec<usize> = vec![2, 8, 11, 11, 16, 16, 17, 24, 31, 32];
            threshold(&table, r.1 / 10 - 1) < r.2
        } else if sr19 && self.timeout == 100 && r.1 % 40 == 0 {
            let table: Vec<usize> = vec![6, 8, 11, 12, 12, 16, 17, 18, 22, 29];
            threshold(&table, r.1 / 40 - 1) < r.2
        } else if sr19 && self.timeout == 200 && r.1 % 40 == 0 {
            let table: Vec<usize> = vec![6, 8, 12, 14, 14, 18, 21, 23, 35, 36];
            threshold(&table, r.1 / 40 - 1) < r.2
        } else if sr19 && self.timeout == 400 && r.1 % 40 == 0 {
            let table: Vec<usize> = vec![10, 15, 17, 19, 20, 25, 28, 32, 37, 37];
            threshold(&table, r.1 / 40 - 1) < r.2
        } else {
            false
        }
    }
}

/// Source of the pattern that recognizes solvers printing in the MiniSat style.
pub open spec fn minisat_like_source() -> Seq<char> {
    "\\b(glucose|minisat|cadical)"@
}

/// Source of the pattern that recognizes CaDiCaL.
pub open spec fn cadical_source() -> Seq<char> {
    "\\bcadical"@
}

/// Source of the pattern that recognizes Glucose.
pub open spec fn glucose_source() -> Seq<char> {
    "\\bglucose"@
}

/// Source of the pattern that recognizes Splr.
pub open spec fn splr_source() -> Seq<char> {
    "\\bsplr"@
}

/// The compiled patterns that recognize solvers by name.
pub struct SolverPatterns {
    minisat_like: Pattern,
    cadical: Pattern,
    glucose: Pattern,
    splr: Pattern,
}

impl SolverPatterns {
    #[verifier::type_invariant]
    spec fn compiled_from_sources(self) -> bool {
        &&& self.minisat_like@ == minisat_like_source()
        &&& self.cadical@ == cadical_source()
        &&& self.glucose@ == glucose_source()
        &&& self.splr@ == splr_source()
    }

    /// Compiles the patterns; `None` when one of them does not compile.
    pub fn new() -> (p: Option<SolverPatterns>)
        ensures
            p is Some <==> (regex_compiles(minisat_like_source()) && regex_compiles(cadical_source())
                && regex_compiles(glucose_source()) && regex_compiles(splr_source())),
    {
        let minisat_like = compile("\\b(glucose|minisat|cadical)");
        let cadical = compile("\\bcadical");
        let glucose = compile("\\bglucose");
        let splr = compile("\\bsplr");
        match (minisat_like, cadical, glucose, splr) {
            (Some(minisat_like), Some(cadical), Some(glucose), Some(splr)) => Some(
                SolverPatterns { minisat_like, cadical, glucose, splr },
            ),
            _ => None,
        }
    }
}

/// How a solver is driven.
#[derive(Debug, Clone, Copy, PartialEq, Eq, Structural)]
pub enum SolverFamily {
    Splr,
    Cadical,
    Glucose,
    Other,
}

/// The family chosen from whether the solver's name matches the Splr, CaDiCaL and Glucose
/// patterns, tried in that order.
pub open spec fn family_from(splr: bool, cadical: bool, glucose: bool) -> SolverFamily {
    if splr {
        SolverFamily::Splr
    } else if cadical {
        SolverFamily::Cadical
    } else if glucose {
        SolverFamily::Glucose
    } else {
        SolverFamily::Other
    }
}

/// The family of the solver called `solver`.
pub open spec fn family_of(solver: Seq<char>) -> SolverFamily {
    family_from(
        regex_is_match(splr_source(), solver),
        regex_is_match(cadical_source(), solver),
        regex_is_match(glucose_source(), solver),
    )
}

/// The family chosen from the three pattern tests.
pub fn family_from_matches(splr: bool, cadical: bool, glucose: bool) -> (f: SolverFamily)
    ensures
        f == family_from(splr, cadical, glucose),
{
    if splr {
        SolverFamily::Splr
    } else if cadical {
        SolverFamily::Cadical
    } else if glucose {
        SolverFamily::Glucose
    } else {
        SolverFamily::Other
    }
}

/// The family of the solver called `solver`.
pub fn solver_family(pats: &SolverPatterns, solver: &str) -> (f: SolverFamily)
    ensures
        f == family_of(solver@),
{
    proof {
        use_type_invariant(pats);
    }
    let splr = is_match(&pats.splr, solver);
    let cadical = is_match(&pats.cadical, solver);
    let glucose = is_match(&pats.glucose, solver);
    family_from_matches(splr, cadical, glucose)
}

/// A program and its arguments.
pub struct CommandLine {
    pub program: String,
    pub args: Vec<String>,
}

/// The arguments that set the time limit (and, for Splr, the output directory) of a solver
/// of family `f`.
pub open spec fn family_args(f: SolverFamily, timeout: usize, dump_dir: Seq<char>) -> Seq<Seq<char>> {
    match f {
        SolverFamily::Splr => seq!["--to"@, decimal(timeout as nat), "-o"@, dump_dir, "-q"@],
        SolverFamily::Cadical => seq!["-t"@, decimal(timeout as nat), "--report=false"@],
        SolverFamily::Glucose => seq!["-verb=0"@, "-cpu-lim="@ + decimal(timeout as nat)],
        SolverFamily::Other => seq![],
    }
}

/// The command that runs the configured solver when it belongs to family `f`.
pub fn command_for_family(config: &Config, f: SolverFamily) -> (c: CommandLine)
    ensures
        c.program@ == config.solver@,
        texts(c.args@) == family_args(f, config.timeout, config.dump_dir@),
{
    let mut args: Vec<String> = Vec::new();
    match f {
        SolverFamily::Splr => {
            args.push(String::from_str("--to"));
            args.push(decimal_string(config.timeout));
            args.push(String::from_str("-o"));
            args.push(String::from_str(config.dump_dir.as_str()));
            args.push(String::from_str("-q"));
        },
        SolverFamily::Cadical => {
            args.push(String::from_str("-t"));
            args.push(decimal_string(config.timeout));
            args.push(String::from_str("--report=false"));
        },
        SolverFamily::Glucose => {
            args.push(String::from_str("-verb=0"));
            let mut limit = String::from_str("-cpu-lim=");
            let t = decimal_string(config.timeout);
            limit.append(t.as_str());
            args.push(limit);
        },
        SolverFamily::Other => {},
    }
    assert(texts(args@) =~= family_args(f, config.timeout, config.dump_dir@));
    CommandLine { program: String::from_str(config.solver.as_str()), args }
}

/// The command that runs the configured solver, with the time limit its family takes.
pub fn solver_command(config: &Config, pats: &SolverPatterns) -> (c: CommandLine)
    ensures
        c.program@ == config.solver@,
        texts(c.args@) == family_args(family_of(config.solver@), config.timeout, config.dump_dir@),
{
    let f = solver_family(pats, config.solver.as_str());
    command_for_family(config, f)
}

/// The arguments of a run of the configured solver on `cnf`: those of its family, then each
/// word of the solver options without a leading backslash, then the problem.
pub open spec fn invocation_args(config: Config, cnf: Seq<char>) -> Seq<Seq<char>> {
    family_args(family_of(config.solver@), config.timeout, config.dump_dir@) + words(
        config.solver_options@,
    ).map_values(|w: Seq<char>| unescaped(w)) + seq![cnf]
}

/// The command that runs the configured solver on the problem `cnf`.
pub fn invocation(config: &Config, pats: &SolverPatterns, cnf: &str) -> (c: CommandLine)
    ensures
        c.program@ == config.solver@,
        texts(c.args@) == invocation_args(*config, cnf@),
{
    let mut c = solver_command(config, pats);
    let opts = split_words(config.solver_options.as_str());
    let ghost base = texts(c.args@);
    let mut i: usize = 0;
    while i < opts.len()
        invariant
            i <= opts@.len(),
            texts(opts@) == words(config.solver_options@),
            c.program@ == config.solver@,
            base == family_args(family_of(config.solver@), config.timeout, config.dump_dir@),
            texts(c.args@) == base + words(config.solver_options@).take(i as int).map_values(
                |w: Seq<char>| unescaped(w),
            ),
        decreases opts@.len() - i,
    {
        let w = unescape(opts[i].as_str());
        let ghost prev = c.args@;
        c.args.push(w);
        proof {
            let ws = words(config.solver_options@);
            assert(texts(opts@)[i as int] == opts@[i as int]@);
            assert(texts(c.args@) =~= texts(prev).push(unescaped(ws[i as int])));
            assert(ws.take(i + 1) =~= ws.take(i as int).push(ws[i as int]));
            assert(ws.take(i + 1).map_values(|w: Seq<char>| unescaped(w)) =~= ws.take(
                i as int,
            ).map_values(|w: Seq<char>| unescaped(w)).push(unescaped(ws[i as int])));
        }
        i = i + 1;
    }
    assert(words(config.solver_options@).take(i as int) == words(config.solver_options@));
    c.args.push(String::from_str(cnf));
    assert(texts(c.args@) =~= invocation_args(*config, cnf@));
    c
}

/// What is echoed to the console after a failed run.
#[derive(Debug, Clone, Copy, PartialEq, Eq, Structural)]
pub enum Echo {
    Nothing,
    /// the standard output, which equals the standard error
    Output,
    /// the standard output followed by the standard error
    OutputAndError,
}

/// The verdict on a finished solver run.
#[derive(Debug, Clone, Copy)]
pub struct RunOutcome {
    /// `Ok` when the solver answered
    pub result: Result<(), SolverException>,
    /// the standard output is kept in the answer directory
    pub dump_output: bool,
    pub echo: Echo,
}

/// The verdict on a run that exited with `code` and printed `out` and `err`, for a solver
/// that prints in the MiniSat style when `minisat_like`. The cases are tried in order.
pub open spec fn run_outcome(minisat_like: bool, code: Option<i32>, out: Seq<char>, err: Seq<char>) -> RunOutcome {
    if code == Some(0i32) && has_infix(out, "SATISFIABLE: "@) {
        RunOutcome { result: Ok(()), dump_output: false, echo: Echo::Nothing }
    } else if code == Some(0i32) && has_infix(out, "UNSAT: "@) {
        RunOutcome { result: Ok(()), dump_output: false, echo: Echo::Nothing }
    } else if has_infix(out, "TimeOut"@) {
        RunOutcome { result: Err(SolverException::TimeOut), dump_output: false, echo: Echo::Nothing }
    } else if minisat_like && has_infix(out, "c UNKNOWN"@) {
        RunOutcome { result: Err(SolverException::TimeOut), dump_output: true, echo: Echo::Nothing }
    } else if has_infix(err, "thread 'main' panicked"@) {
        RunOutcome { result: Err(SolverException::Abort), dump_output: false, echo: Echo::Nothing }
    } else if code == Some(10i32) && minisat_like && has_infix(out, "s SATISFIABLE"@) {
        RunOutcome { result: Ok(()), dump_output: true, echo: Echo::Nothing }
    } else if code == Some(20i32) && minisat_like && has_infix(out, "s UNSATISFIABLE"@) {
        RunOutcome { result: Ok(()), dump_output: true, echo: Echo::Nothing }
    } else if out == err {
        RunOutcome { result: Err(SolverException::Abort), dump_output: false, echo: Echo::Output }
    } else {
        RunOutcome { result: Err(SolverException::Abort), dump_output: false, echo: Echo::OutputAndError }
    }
}

/// The verdict on a run, given whether the solver prints in the MiniSat style.
pub fn outcome_for(minisat_like: bool, code: Option<i32>, out: &str, err: &str) -> (o: RunOutcome)
    ensures
        o == run_outcome(minisat_like, code, out@, err@),
        o.result is Ok ==> code == Some(0i32) || code == Some(10i32) || code == Some(20i32),
        o.dump_output ==> minisat_like,
        o.echo != Echo::Nothing ==> o.result == Err::<(), SolverException>(SolverException::Abort),
{
    let o = chars_of(out);
    let e = chars_of(err);
    if code == Some(0i32) && contains(&o, "SATISFIABLE: ") {
        RunOutcome { result: Ok(()), dump_output: false, echo: Echo::Nothing }
    } else if code == Some(0i32) && contains(&o, "UNSAT: ") {
        RunOutcome { result: Ok(()), dump_output: false, echo: Echo::Nothing }
    } else if contains(&o, "TimeOut") {
        RunOutcome { result: Err(SolverException::TimeOut), dump_output: false, echo: Echo::Nothing }
    } else if minisat_like && contains(&o, "c UNKNOWN") {
        RunOutcome { result: Err(SolverException::TimeOut), dump_output: true, echo: Echo::Nothing }
    } else if contains(&e, "thread 'main' panicked") {
        RunOutcome { result: Err(SolverException::Abort), dump_output: false, echo: Echo::Nothing }
    } else if code == Some(10i32) && minisat_like && contains(&o, "s SATISFIABLE") {
        RunOutcome { result: Ok(()), dump_output: true, echo: Echo::Nothing }
    } else if code == Some(20i32) && minisat_like && contains(&o, "s UNSATISFIABLE") {
        RunOutcome { result: Ok(()), dump_output: true, echo: Echo::Nothing }
    } else if same_text(out, err) {
        RunOutcome { result: Err(SolverException::Abort), dump_output: false, echo: Echo::Output }
    } else {
        RunOutcome { result: Err(SolverException::Abort), dump_output: false, echo: Echo::OutputAndError }
    }
}

/// The verdict on a run of the configured solver that exited with `code` and printed `out`
/// and `err`.
pub fn to_result(config: &Config, pats: &SolverPatterns, code: Option<i32>, out: &str, err: &str) -> (o: RunOutcome)
    ensures
        o == run_outcome(regex_is_match(minisat_like_source(), config.solver@), code, out@, err@),
{
    proof {
        use_type_invariant(pats);
    }
    let minisat_like = is_match(&pats.minisat_like, config.solver.as_str());
    outcome_for(minisat_like, code, out, err)
}

/// The outcome of a task: the problem's file name and `Ok` when the solver answered;
/// `None` while the task has not finished.
pub type SolveResultPromise = Option<(String, Result<(), SolverException>)>;

/// The state shared by the workers and the monitor.
pub struct BenchState {
    /// the tasks still to be run, the next one last
    pub queue: Vec<(usize, String)>,
    /// (the last queued task id, the number of reported tasks, the number of solved tasks)
    pub processed: (usize, usize, usize),
    /// the outcome of each task in the range, task `i` at index `i - 1`
    pub results: Vec<SolveResultPromise>,
}

/// The problems of the configured range: those from `target_from` (counted from 0) up to
/// `target_to`, both cut to the length of the benchmark.
pub open spec fn targets(config: Config) -> Seq<(usize, String)> {
    let end = if config.target_to < config.benchmark@.len() {
        config.target_to as int
    } else {
        config.benchmark@.len() as int
    };
    if config.target_from < end {
        config.benchmark@.subrange(config.target_from as int, end)
    } else {
        Seq::empty()
    }
}

/// The problems of the range that are run: those whose number is a multiple of the step.
pub open spec fn selected(config: Config) -> Seq<(usize, String)> {
    targets(config).filter(|p: (usize, String)| p.0 % config.target_step == 0)
}

/// A run can be set up: the step divides problem numbers unless the range is empty.
pub open spec fn can_start(config: Config) -> bool {
    config.target_step > 0 || targets(config).len() == 0
}

/// The end of the range of targets: `target_to` cut to the length of the benchmark.
pub open spec fn range_end(config: Config) -> int {
    if config.target_to < config.benchmark@.len() {
        config.target_to as int
    } else {
        config.benchmark@.len() as int
    }
}

/// `p` is a problem of the configured range whose number is a multiple of the step.
pub open spec fn runs_in_range(config: Config, p: (usize, String)) -> bool {
    exists|i: int|
        config.target_from <= i < range_end(config) && p == #[trigger] config.benchmark@[i] && p.0
            % config.target_step == 0
}

/// Only problems of the configured range are run: the range holds, in order, the problems
/// from index `target_from` up to, not including, `target_to` cut to the length of the
/// benchmark, one outcome slot each; every selected problem is one of them, and its number is
/// a multiple of the step.
pub proof fn law_targets_in_range(config: Config)
    ensures
        targets(config).len() == if config.target_from < range_end(config) {
            range_end(config) - config.target_from
        } else {
            0
        },
        forall|k: int|
            0 <= k < targets(config).len() ==> #[trigger] targets(config)[k] == config.benchmark@[config.target_from + k],
        forall|k: int| 0 <= k < selected(config).len() ==> runs_in_range(config, #[trigger] selected(config)[k]),
{
    let pred = |p: (usize, String)| p.0 % config.target_step == 0;
    let t = targets(config);
    let len = config.benchmark@.len() as int;
    let end = if config.target_to < len {
        config.target_to as int
    } else {
        len
    };
    assert forall|k: int| 0 <= k < selected(config).len() implies runs_in_range(config, #[trigger] selected(config)[k]) by {
        t.lemma_filter_pred(pred, k);
        assert(t.filter(pred) == selected(config));
        assert(t.filter(pred).contains(selected(config)[k]));
        t.lemma_filter_contains_rev(pred, selected(config)[k]);
        let j = choose|j: int| 0 <= j < t.len() && t[j] == selected(config)[k];
        assert(config.benchmark@[config.target_from + j] == selected(config)[k]);
        assert(pred(selected(config)[k]));
        let i = config.target_from + j;
        assert(config.target_from <= i < end && selected(config)[k] == config.benchmark@[i]
            && config.benchmark@[i].0 % config.target_step == 0);
    }
    if config.target_from < end {
        assert(t.len() == end - config.target_from);
        assert forall|k: int| 0 <= k < t.len() implies #[trigger] t[k] == config.benchmark@[config.target_from + k] by {
            assert(t == config.benchmark@.subrange(config.target_from as int, end));
        }
    } else {
        assert(t.len() == 0);
    }
}

/// Whether a run of `config` can be set up: the test that `BenchState::new` requires.
pub fn can_start_run(config: &Config) -> (b: bool)
    ensures
        b == can_start(*config),
{
    let len = config.benchmark.len();
    let end = if config.target_to < len {
        config.target_to
    } else {
        len
    };
    config.target_step > 0 || config.target_from >= end
}

impl BenchState {
    /// The state at the start of a run: the selected problems queued so that the first is
    /// handed out first, no outcome yet for any problem of the range, and the counters at
    /// (`target_from`, 0, 0).
    pub fn new(config: &Config) -> (st: BenchState)
        requires
            can_start(*config),
        ensures
            st.queue@ == selected(*config).reverse(),
            st.results@ == Seq::new(targets(*config).len(), |i: int| None::<(String, Result<(), SolverException>)>),
            st.processed == (config.target_from, 0usize, 0usize),
    {
        let len = config.benchmark.len();
        let end = if config.target_to < len {
            config.target_to
        } else {
            len
        };
        let ghost range = targets(*config);
        let ghost pred = |p: (usize, String)| p.0 % config.target_step == 0;
        let mut chosen: Vec<(usize, String)> = Vec::new();
        let mut results: Vec<SolveResultPromise> = Vec::new();
        let mut i = config.target_from;
        let ghost nonempty = config.target_from < end;
        assert(range.take(0) =~= Seq::<(usize, String)>::empty());
        assert(range.take(0).filter(pred) =~= Seq::<(usize, String)>::empty()) by {
            reveal(Seq::filter);
        }
        while i < end
            invariant
                end <= config.benchmark@.len(),
                nonempty == (config.target_from < end),
                nonempty ==> {
                    &&& config.target_from <= i <= end
                    &&& range == config.benchmark@.subrange(config.target_from as int, end as int)
                    &&& config.target_step > 0
                    &&& chosen@ == range.take(i - config.target_from).filter(pred)
                    &&& results@.len() == i - config.target_from
                },
                !nonempty ==> i == config.target_from && chosen@.len() == 0 && results@.len() == 0,
                forall|k: int| 0 <= k < results@.len() ==> results@[k] is None,
                pred == (|p: (usize, String)| p.0 % config.target_step == 0),
            decreases end - i,
        {
            let num = config.benchmark[i].0;
            if num % config.target_step == 0 {
                let name = config.benchmark[i].1.clone();
                chosen.push((num, name));
            }
            results.push(None);
            proof {
                let k = i - config.target_from;
                assert(range[k] == config.benchmark@[i as int]);
                assert(range.take(k + 1) =~= range.take(k).push(range[k]));
                range.take(k).lemma_filter_push(range[k], pred);
            }
            i = i + 1;
        }
        proof {
            if nonempty {
                assert(range.take(end - config.target_from) =~= range);
            } else {
                assert(range.len() == 0);
                assert(range.filter(pred) =~= range) by {
                    reveal(Seq::filter);
                }
            }
        }
        let ghost all = chosen@;
        let mut queue: Vec<(usize, String)> = Vec::new();
        while chosen.len() > 0
            invariant
                queue@.len() + chosen@.len() == all.len(),
                chosen@ == all.take(chosen@.len() as int),
                forall|k: int| 0 <= k < queue@.len() ==> queue@[k] == all[all.len() - 1 - k],
            decreases chosen@.len(),
        {
            let ghost n = chosen@.len();
            let x = chosen.pop().unwrap();
            assert(x == all[n - 1]);
            queue.push(x);
            assert(chosen@ =~= all.take(chosen@.len() as int));
        }
        assert(queue@ =~= all.reverse());
        assert(results@ =~= Seq::new(range.len(), |i: int| None::<(String, Result<(), SolverException>)>));
        BenchState { queue, processed: (config.target_from, 0, 0), results }
    }
}

/// Tasks are handed out in the order of the benchmark, each once: the queue of a run's set-up
/// holds the selected problems reversed, every call of `next_task` takes the last entry, and
/// after `k` calls the queue holds the problems from the `k`-th on, reversed, so that the next
/// call hands out problem `k` of the selection.
pub proof fn law_tasks_in_order(selected: Seq<(usize, String)>, k: int)
    requires
        0 <= k < selected.len(),
    ensures
        selected.reverse().take(selected.len() - k) == selected.skip(k).reverse(),
        selected.skip(k).reverse().last() == selected[k],
        selected.skip(k).reverse().drop_last() == selected.skip(k + 1).reverse(),
{
    assert(selected.reverse().take(selected.len() - k) =~= selected.skip(k).reverse());
    assert(selected.skip(k).reverse().drop_last() =~= selected.skip(k + 1).reverse());
}

/// A task as handed out: its number and the path of its problem.
pub open spec fn task_view(task: Option<(usize, String)>) -> Option<(usize, Seq<char>)> {
    match task {
        Some((index, path)) => Some((index, path@)),
        None => None,
    }
}

/// One call of `next_task` on the queue `queue` and the counters `processed`: the queue and
/// counters after it, and the task handed out.
pub open spec fn take_task(data_dir: Seq<char>, queue: Seq<(usize, String)>, processed: (usize, usize, usize)) -> (
    Seq<(usize, String)>,
    (usize, usize, usize),
    Option<(usize, Seq<char>)>,
) {
    if queue.len() == 0 {
        (queue, processed, None)
    } else {
        let top = queue.last();
        (queue.drop_last(), (top.0, processed.1, processed.2), Some((top.0, joined(data_dir, top.1@))))
    }
}

/// `k` successive calls of `next_task`: the queue and counters after them, and the tasks
/// handed out, in order.
pub open spec fn take_tasks(
    data_dir: Seq<char>,
    queue: Seq<(usize, String)>,
    processed: (usize, usize, usize),
    k: nat,
) -> (Seq<(usize, String)>, (usize, usize, usize), Seq<Option<(usize, Seq<char>)>>)
    decreases k,
{
    if k == 0 {
        (queue, processed, seq![])
    } else {
        let (q1, p1, t) = take_task(data_dir, queue, processed);
        let (q2, p2, ts) = take_tasks(data_dir, q1, p1, (k - 1) as nat);
        (q2, p2, seq![t] + ts)
    }
}

/// Successive calls of `next_task` hand out the queued tasks from the last to the first, each
/// once, and then nothing: after `k` calls on a queue of `n` tasks, the `i`-th call (from 0)
/// handed out task `n - 1 - i` while `i < n` and nothing after; the queue holds its first
/// `n - k` tasks (none once `k >= n`); the last handed out task is the last queued one, and the
/// other counters are unchanged.
pub proof fn law_successive_tasks(
    data_dir: Seq<char>,
    queue: Seq<(usize, String)>,
    processed: (usize, usize, usize),
    k: nat,
)
    ensures
        ({
            let (q, p, ts) = take_tasks(data_dir, queue, processed, k);
            let n = queue.len();
            let m = if k < n { k as int } else { n as int };
            &&& ts.len() == k
            &&& forall|i: int|
                0 <= i < m ==> #[trigger] ts[i] == Some(
                    (queue[n - 1 - i].0, joined(data_dir, queue[n - 1 - i].1@)),
                )
            &&& forall|i: int| m <= i < k ==> #[trigger] ts[i] is None
            &&& q == queue.take(n - m)
            &&& p.0 == if m > 0 {
                queue[n - m].0
            } else {
                processed.0
            }
            &&& p.1 == processed.1
            &&& p.2 == processed.2
        }),
    decreases k,
{
    if k > 0 {
        let (q1, p1, t) = take_task(data_dir, queue, processed);
        law_successive_tasks(data_dir, q1, p1, (k - 1) as nat);
        let (q2, p2, ts) = take_tasks(data_dir, q1, p1, (k - 1) as nat);
        let all = seq![t] + ts;
        let n = queue.len();
        if n == 0 {
            assert(q1 == queue);
            assert(queue.take(0) =~= queue);
        } else {
            assert(q1 =~= queue.take(n - 1));
            assert forall|i: int| 1 <= i < k implies all[i] == ts[i - 1] by {}
            let m = if k < n { k as int } else { n as int };
            assert(queue.take(n - 1).take(n - 1 - (m - 1)) =~= queue.take(n - m));
        }
    } else {
        assert(queue.take(queue.len() as int) =~= queue);
    }
}

/// Takes the next task from the queue: its number and the path of its problem under the
/// data directory. The task becomes the last queued one. `None` when the queue is empty,
/// and then nothing changes.
pub fn next_task(config: &Config, state: &mut BenchState) -> (task: Option<(usize, String)>)
    ensures
        old(state).queue@.len() == 0 ==> {
            &&& task is None
            &&& final(state).queue@ == old(state).queue@
            &&& final(state).processed == old(state).processed
            &&& final(state).results@ == old(state).results@
        },
        old(state).queue@.len() > 0 ==> {
            let top = old(state).queue@.last();
            &&& task matches Some((index, path)) && index == top.0 && path@ == joined(
                config.data_dir@,
                top.1@,
            )
            &&& final(state).queue@ == old(state).queue@.drop_last()
            &&& final(state).processed == (top.0, old(state).processed.1, old(state).processed.2)
            &&& final(state).results@ == old(state).results@
        },
        (final(state).queue@, final(state).processed, task_view(task)) == take_task(
            config.data_dir@,
            old(state).queue@,
            old(state).processed,
        ),
{
    match state.queue.pop() {
        Some((index, top)) => {
            state.processed.0 = index;
            Some((index, join_path(config.data_dir.as_str(), top.as_str())))
        },
        None => None,
    }
}

/// What a worker reports.
pub enum WorkerEvent {
    /// the worker is ready for its first task
    Ready,
    /// the worker ran task `index`
    Finished { index: usize, result: SolveResultPromise },
}

/// What a worker is told to do.
pub enum WorkerAction {
    /// check the finished tasks, then run the solver on problem `cnf` as task `index`
    Solve { index: usize, cnf: String },
    /// stop: no task is left
    Quit,
}

/// The outcomes after a worker's report: a finished task's outcome is stored at its index.
pub open spec fn stored(results: Seq<SolveResultPromise>, event: WorkerEvent) -> Seq<SolveResultPromise> {
    match event {
        WorkerEvent::Ready => results,
        WorkerEvent::Finished { index, result } => results.update(index - 1, result),
    }
}

/// A report can be stored: a finished task has an outcome slot.
pub open spec fn can_store(results: Seq<SolveResultPromise>, event: WorkerEvent) -> bool {
    match event {
        WorkerEvent::Ready => true,
        WorkerEvent::Finished { index, result } => 1 <= index <= results.len(),
    }
}

/// One turn of a worker: store the outcome of the task it finished, then take the next task
/// from the queue, or quit when none is left.
pub fn worker(config: &Config, state: &mut BenchState, event: WorkerEvent) -> (action: WorkerAction)
    requires
        can_store(old(state).results@, event),
    ensures
        final(state).results@ == stored(old(state).results@, event),
        old(state).queue@.len() == 0 ==> {
            &&& action is Quit
            &&& final(state).queue@ == old(state).queue@
            &&& final(state).processed == old(state).processed
        },
        old(state).queue@.len() > 0 ==> {
            let top = old(state).queue@.last();
            &&& action matches WorkerAction::Solve { index, cnf } && index == top.0 && cnf@
                == joined(config.data_dir@, top.1@)
            &&& final(state).queue@ == old(state).queue@.drop_last()
            &&& final(state).processed == (top.0, old(state).processed.1, old(state).processed.2)
        },
{
    match event {
        WorkerEvent::Ready => {},
        WorkerEvent::Finished { index, result } => {
            state.results.set(index - 1, result);
        },
    }
    match next_task(config, state) {
        Some((index, cnf)) => WorkerAction::Solve { index, cnf },
        None => WorkerAction::Quit,
    }
}

/// Sets the number of solved tasks to the totals of a report.
pub fn record_solved(state: &mut BenchState, nsat: usize, nunsat: usize)
    requires
        nsat + nunsat <= usize::MAX,
    ensures
        final(state).processed == (old(state).processed.0, old(state).processed.1, (nsat
            + nunsat) as usize),
        final(state).queue@ == old(state).queue@,
        final(state).results@ == old(state).results@,
{
    state.processed.2 = nsat + nunsat;
}

/// Something the monitor has to show.
pub enum Notice {
    /// clear the progress line
    ClearLine,
    /// task `task_id` is reported and `solved` tasks are solved, a new record: posted and
    /// printed with a star
    Record { task_id: usize, solved: usize, target: String },
    /// task `task_id` is reported after a new solution: posted and printed
    Solution { task_id: usize, solved: usize, target: String },
    /// the tasks from `task_id` up to `last_queued` are running; `target` is the name of the
    /// problem at index `task_id` of the benchmark
    Running { task_id: usize, last_queued: usize, target: String },
}

/// The result of one pass of the monitor.
pub struct CheckStep {
    pub notices: Vec<Notice>,
    /// the report is to be rewritten for the first `task_id` tasks, its totals to be
    /// recorded, and the pass to be resumed with `new_solution`
    pub report_at: Option<usize>,
    /// a solution was reported during this pass
    pub new_solution: bool,
}

/// The monitor's pass from outcome index `j` on, with counters `p` and `fresh` telling
/// whether a solution was reported earlier in the pass: the counters after it, the notices,
/// the task after which the report is due, and the new value of `fresh`. Finished tasks are
/// reported in order up to the first unfinished one; the pass stops after a task whose index
/// is a multiple of the number of jobs, for the report.
pub open spec fn scan(
    config: Config,
    results: Seq<SolveResultPromise>,
    j: int,
    p: (usize, usize, usize),
    fresh: bool,
) -> ((usize, usize, usize), Seq<Notice>, Option<usize>, bool)
    decreases results.len() - j,
{
    if j < 0 || j >= results.len() {
        (p, seq![], None, fresh)
    } else {
        match results[j] {
            Some(r) => {
                let ok = r.1 is Ok;
                let task_id = (j + 1) as usize;
                let solved = if ok {
                    (p.2 + 1) as usize
                } else {
                    p.2
                };
                let p1 = (p.0, task_id, solved);
                let fresh1 = fresh || ok;
                let shown = if beats_record(
                    config.benchmark_name@,
                    config.timeout,
                    task_id as int,
                    solved as int,
                ) {
                    seq![Notice::ClearLine, Notice::Record { task_id, solved, target: r.0 }]
                } else if fresh1 {
                    seq![Notice::ClearLine, Notice::Solution { task_id, solved, target: r.0 }]
                } else {
                    seq![Notice::ClearLine]
                };
                if j % (config.num_jobs as int) == 0 {
                    (p1, shown, Some(task_id), fresh1)
                } else {
                    let rest = scan(config, results, j + 1, p1, fresh1);
                    (rest.0, shown + rest.1, rest.2, rest.3)
                }
            },
            None => {
                let task_id = j + 1;
                let shown = if task_id < config.benchmark@.len() {
                    seq![
                        Notice::Running {
                            task_id: task_id as usize,
                            last_queued: p.0,
                            target: config.benchmark@[task_id].1,
                        },
                    ]
                } else {
                    seq![]
                };
                (p, shown, None, fresh)
            },
        }
    }
}

/// The pass from index `j` on is defined: each task it reports has a place on the record
/// line, and the number of jobs is positive where the report check is made.
pub open spec fn scan_defined(config: Config, results: Seq<SolveResultPromise>, j: int) -> bool
    decreases results.len() - j,
{
    if j < 0 || j >= results.len() {
        true
    } else {
        match results[j] {
            Some(r) => {
                &&& config.num_jobs > 0
                &&& record_defined(config.benchmark_name@, config.timeout, j + 1)
                &&& (j % (config.num_jobs as int) == 0 || scan_defined(config, results, j + 1))
            },
            None => true,
        }
    }
}

/// Whether the record line of the configured benchmark has an entry for `reported` problems
/// wherever a check falls on it.
pub fn record_defined_at(config: &Config, reported: usize) -> (b: bool)
    ensures
        b == record_defined(config.benchmark_name@, config.timeout, reported as int),
{
    let bench = config.benchmark_name.as_str();
    let core = same_text(bench, "SR19Core");
    let sr19 = same_text(bench, "SR19");
    if core && config.timeout == 300 {
        reported % 10 != 0 || (1 <= reported / 10 && reported / 10 <= 10)
    } else if sr19 && (config.timeout == 100 || config.timeout == 200 || config.timeout == 400) {
        reported % 40 != 0 || (1 <= reported / 40 && reported / 40 <= 10)
    } else {
        true
    }
}

/// Whether the monitor's next pass is defined: the test that `check_result` requires.
pub fn can_check(config: &Config, state: &BenchState) -> (b: bool)
    ensures
        b == scan_defined(*config, state.results@, state.processed.1 as int),
{
    let mut j = state.processed.1;
    while j < state.results.len()
        invariant
            scan_defined(*config, state.results@, state.processed.1 as int) == scan_defined(
                *config,
                state.results@,
                j as int,
            ),
        decreases state.results@.len() - j,
    {
        match &state.results[j] {
            None => {
                return true;
            },
            Some(_) => {
                if config.num_jobs == 0 || !record_defined_at(config, j + 1) {
                    return false;
                }
                if j % config.num_jobs == 0 {
                    return true;
                }
            },
        }
        j = j + 1;
    }
    true
}

/// The number of solved outcomes at indexes `a` up to `b`.
pub open spec fn solved_between(results: Seq<SolveResultPromise>, a: int, b: int) -> nat
    decreases b - a,
{
    if a >= b {
        0
    } else {
        (if results[a] matches Some(r) && r.1 is Ok {
            1nat
        } else {
            0nat
        }) + solved_between(results, a + 1, b)
    }
}

/// The counters `after` of a pass started from counters `before` report, in order, only
/// finished tasks, and count each solved one.
pub open spec fn reports_in_order(
    results: Seq<SolveResultPromise>,
    before: (usize, usize, usize),
    after: (usize, usize, usize),
) -> bool {
    &&& after.0 == before.0
    &&& before.1 <= after.1
    &&& forall|k: int| before.1 <= k < after.1 ==> results[k] is Some
    &&& after.2 == before.2 + solved_between(results, before.1 as int, after.1 as int)
}

proof fn lemma_scan_reports_in_order(
    config: Config,
    results: Seq<SolveResultPromise>,
    j: int,
    p: (usize, usize, usize),
    fresh: bool,
)
    requires
        0 <= j,
        p.1 == j,
        results.len() <= usize::MAX,
        p.2 + results.len() - j <= usize::MAX,
        scan_defined(config, results, j),
    ensures
        ({
            let s = scan(config, results, j, p, fresh);
            &&& reports_in_order(results, p, s.0)
            &&& s.2 matches Some(t) ==> t == s.0.1
        }),
    decreases results.len() - j,
{
    if j < results.len() {
        if let Some(r) = results[j] {
            let ok = r.1 is Ok;
            let solved = if ok {
                (p.2 + 1) as usize
            } else {
                p.2
            };
            let p1 = (p.0, (j + 1) as usize, solved);
            assert(solved_between(results, j + 1, j + 1) == 0);
            if j % (config.num_jobs as int) != 0 {
                lemma_scan_reports_in_order(config, results, j + 1, p1, fresh || ok);
                let s1 = scan(config, results, j + 1, p1, fresh || ok);
                assert(solved_between(results, j, s1.0.1 as int) == (if ok { 1nat } else { 0nat })
                    + solved_between(results, j + 1, s1.0.1 as int));
            } else {
                assert(solved_between(results, j, j + 1) == (if ok { 1nat } else { 0nat })
                    + solved_between(results, j + 1, j + 1));
            }
        }
    }
}

/// Whether a pass that has reported `reported` tasks stands at an unfinished task or at the
/// end: the place where a completed pass stops.
pub open spec fn settled(results: Seq<SolveResultPromise>, reported: int) -> bool {
    reported >= results.len() || results[reported] is None
}

proof fn lemma_scan_stops(
    config: Config,
    results: Seq<SolveResultPromise>,
    j: int,
    p: (usize, usize, usize),
    fresh: bool,
)
    requires
        0 <= j,
        p.1 == j,
        results.len() <= usize::MAX,
    ensures
        ({
            let s = scan(config, results, j, p, fresh);
            &&& s.0.0 == p.0
            &&& j <= s.0.1
            &&& j <= results.len() ==> s.0.1 <= results.len()
            &&& forall|k: int| j <= k < s.0.1 ==> results[k] is Some
            &&& s.2 is None ==> settled(results, s.0.1 as int)
        }),
    decreases results.len() - j,
{
    if j < results.len() {
        if let Some(r) = results[j] {
            let ok = r.1 is Ok;
            let solved = if ok {
                (p.2 + 1) as usize
            } else {
                p.2
            };
            let p1 = (p.0, (j + 1) as usize, solved);
            if j % (config.num_jobs as int) != 0 {
                lemma_scan_stops(config, results, j + 1, p1, fresh || ok);
            }
        }
    }
}

/// A monitor pass reports finished tasks in order and, once it has run to completion (no
/// report is due), stops at the first unfinished task: when every task before the reported
/// count is finished, the same holds after the pass, the count does not fall, and a completed
/// pass leaves the count at an unfinished task or at the end.
pub proof fn law_pass_stops_at_unfinished(
    config: Config,
    results: Seq<SolveResultPromise>,
    p: (usize, usize, usize),
    fresh: bool,
)
    requires
        results.len() <= usize::MAX,
        p.1 <= results.len(),
        forall|k: int| 0 <= k < p.1 ==> results[k] is Some,
    ensures
        ({
            let s = scan(config, results, p.1 as int, p, fresh);
            &&& p.1 <= s.0.1 <= results.len()
            &&& forall|k: int| 0 <= k < s.0.1 ==> results[k] is Some
            &&& s.2 is None ==> settled(results, s.0.1 as int)
        }),
{
    lemma_scan_stops(config, results, p.1 as int, p, fresh);
}

/// A pass that starts where a completed pass stopped changes nothing: the counters stay, no
/// report is due, whether a solution was reported stays as given, and the only notice is
/// the one naming the running tasks.
pub proof fn law_settled_pass(
    config: Config,
    results: Seq<SolveResultPromise>,
    p: (usize, usize, usize),
    fresh: bool,
)
    requires
        settled(results, p.1 as int),
    ensures
        ({
            let s = scan(config, results, p.1 as int, p, fresh);
            &&& s.0 == p
            &&& s.2 is None
            &&& s.3 == fresh
            &&& s.1.len() <= 1
            &&& forall|i: int| 0 <= i < s.1.len() ==> #[trigger] s.1[i] is Running
        }),
{
}

/// A second pass after a completed one changes nothing: with the outcomes unchanged, the
/// counters stay where the first pass left them, no report is due, and the only notice is
/// the one naming the running tasks.
pub proof fn law_second_pass_changes_nothing(
    config: Config,
    results: Seq<SolveResultPromise>,
    p: (usize, usize, usize),
    fresh: bool,
    fresh2: bool,
)
    requires
        results.len() <= usize::MAX,
        scan(config, results, p.1 as int, p, fresh).2 is None,
    ensures
        ({
            let s = scan(config, results, p.1 as int, p, fresh);
            let s2 = scan(config, results, s.0.1 as int, s.0, fresh2);
            &&& s2.0 == s.0
            &&& s2.2 is None
            &&& s2.3 == fresh2
            &&& forall|i: int| 0 <= i < s2.1.len() ==> #[trigger] s2.1[i] is Running
        }),
{
    lemma_scan_stops(config, results, p.1 as int, p, fresh);
    let s = scan(config, results, p.1 as int, p, fresh);
    law_settled_pass(config, results, s.0, fresh2);
}

/// One pass of the monitor over the finished tasks not yet reported. `new_solution` says
/// whether a solution was already reported in this pass before a report interrupted it.
pub fn check_result(config: &Config, state: &mut BenchState, new_solution: bool) -> (step: CheckStep)
    requires
        scan_defined(*config, old(state).results@, old(state).processed.1 as int),
        old(state).processed.2 + old(state).results@.len() <= usize::MAX,
    ensures
        ({
            let s = scan(
                *config,
                old(state).results@,
                old(state).processed.1 as int,
                old(state).processed,
                new_solution,
            );
            &&& final(state).processed == s.0
            &&& step.notices@ == s.1
            &&& step.report_at == s.2
            &&& step.new_solution == s.3
        }),
        final(state).queue@ == old(state).queue@,
        final(state).results@ == old(state).results@,
        reports_in_order(old(state).results@, old(state).processed, final(state).processed),
        step.report_at matches Some(t) ==> t == final(state).processed.1,
        step.report_at is None ==> settled(old(state).results@, final(state).processed.1 as int),
{
    proof {
        lemma_scan_stops(
            *config,
            old(state).results@,
            old(state).processed.1 as int,
            old(state).processed,
            new_solution,
        );
        if old(state).processed.1 <= old(state).results@.len() {
            lemma_scan_reports_in_order(
                *config,
                old(state).results@,
                old(state).processed.1 as int,
                old(state).processed,
                new_solution,
            );
        } else {
            assert(solved_between(old(state).results@, old(state).processed.1 as int, old(state).processed.1 as int) == 0);
        }
    }
    let ghost full = scan(
        *config,
        state.results@,
        state.processed.1 as int,
        state.processed,
        new_solution,
    );
    let ghost start = state.processed.1;
    let ghost p0 = state.processed;
    let len = state.results.len();
    let mut j = state.processed.1;
    let mut fresh = new_solution;
    let mut notices: Vec<Notice> = Vec::new();
    while j < len
        invariant
            len == state.results@.len(),
            full == scan(
                *config,
                old(state).results@,
                old(state).processed.1 as int,
                old(state).processed,
                new_solution,
            ),
            p0 == old(state).processed,
            start == old(state).processed.1,
            reports_in_order(old(state).results@, p0, full.0),
            full.2 matches Some(t) ==> t == full.0.1,
            full.2 is None ==> settled(old(state).results@, full.0.1 as int),
            start <= j,
            state.results@ == old(state).results@,
            state.queue@ == old(state).queue@,
            state.processed.0 == p0.0,
            state.processed.2 <= p0.2 + (j - start),
            p0.2 + len <= usize::MAX,
            scan_defined(*config, state.results@, j as int),
            ({
                let cur = scan(*config, state.results@, j as int, state.processed, fresh);
                full == (cur.0, notices@ + cur.1, cur.2, cur.3)
            }),
        decreases len - j,
    {
        let ghost p = state.processed;
        let ghost prev = notices@;
        let ghost fresh0 = fresh;
        let ghost cur = scan(*config, state.results@, j as int, p, fresh0);
        match &state.results[j] {
            Some(r) => {
                let ghost rv = *r;
                assert(state.results@[j as int] == Some(rv));
                let ok = r.1.is_ok();
                let target = r.0.clone();
                state.processed.1 = j + 1;
                if ok {
                    state.processed.2 = state.processed.2 + 1;
                    fresh = true;
                }
                let ghost shown = if beats_record(
                    config.benchmark_name@,
                    config.timeout,
                    (j + 1) as int,
                    state.processed.2 as int,
                ) {
                    seq![Notice::ClearLine, Notice::Record { task_id: (j + 1) as usize, solved: state.processed.2, target: rv.0 }]
                } else if fresh {
                    seq![Notice::ClearLine, Notice::Solution { task_id: (j + 1) as usize, solved: state.processed.2, target: rv.0 }]
                } else {
                    seq![Notice::ClearLine]
                };
                notices.push(Notice::ClearLine);
                if config.is_new_record(config.benchmark_name.as_str(), &state.processed) {
                    notices.push(Notice::Record { task_id: j + 1, solved: state.processed.2, target });
                } else if fresh {
                    notices.push(
                        Notice::Solution { task_id: j + 1, solved: state.processed.2, target },
                    );
                }
                assert(notices@ =~= prev + shown);
                if j % config.num_jobs == 0 {
                    assert(cur == (state.processed, shown, Some((j + 1) as usize), fresh));
                    return CheckStep { notices, report_at: Some(j + 1), new_solution: fresh };
                }
                proof {
                    let rest = scan(*config, state.results@, j + 1, state.processed, fresh);
                    assert(cur == (rest.0, shown + rest.1, rest.2, rest.3));
                    assert(prev + (shown + rest.1) =~= notices@ + rest.1);
                }
                j = j + 1;
            },
            None => {
                assert(state.results@[j as int] is None);
                let ghost prevn = notices@;
                if j + 1 < config.benchmark.len() {
                    let target = config.benchmark[j + 1].1.clone();
                    notices.push(
                        Notice::Running { task_id: j + 1, last_queued: state.processed.0, target },
                    );
                }
                assert(notices@ =~= prev + cur.1);
                return CheckStep { notices, report_at: None, new_solution: fresh };
            },
        }
    }
    assert(notices@ =~= notices@ + Seq::<Notice>::empty());
    CheckStep { notices, report_at: None, new_solution: fresh }
}

/// The benchmark set run under the name `name`: one of `SR19Core`, `SR19` and `SC18`, and
/// `SR19Core` for any other name.
pub open spec fn known_benchmark(name: Seq<char>) -> Seq<char> {
    if name == "SR19Core"@ || name == "SR19"@ || name == "SC18"@ {
        name
    } else {
        "SR19Core"@
    }
}

/// The benchmark set run under the name `name`.
pub fn benchmark_for(name: &str) -> (b: String)
    ensures
        b@ == known_benchmark(name@),
{
    if same_text(name, "SR19Core") || same_text(name, "SR19") || same_text(name, "SC18") {
        String::from_str(name)
    } else {
        String::from_str("SR19Core")
    }
}

/// The source of the pattern of the home directory's short form in a path.
pub open spec fn tilde_source() -> Seq<char> {
    "~"@
}

/// The compiled pattern of the home directory's short form.
pub struct HomePattern {
    tilde: Pattern,
}

impl HomePattern {
    #[verifier::type_invariant]
    spec fn compiled_from_source(self) -> bool {
        self.tilde@ == tilde_source()
    }

    /// Compiles the pattern; `None` when it does not compile.
    pub fn new() -> (p: Option<HomePattern>)
        ensures
            p is Some <==> regex_compiles(tilde_source()),
    {
        match compile("~") {
            Some(tilde) => Some(HomePattern { tilde }),
            None => None,
        }
    }
}

/// `path` with its first `~` replaced by the home directory `home`.
pub fn expand_home(pats: &HomePattern, path: &str, home: &str) -> (p: String)
    ensures
        p@ == regex_replace(tilde_source(), path@, home@),
{
    proof {
        use_type_invariant(pats);
    }
    replace(&pats.tilde, path, home)
}

impl Config {
    /// Replaces the first `~` of the data, synchronisation and repository directories with
    /// the home directory `home`.
    pub fn expand_dirs(&mut self, pats: &HomePattern, home: &str)
        ensures
            *final(self) == (Config {
                data_dir: final(self).data_dir,
                sync_dir: final(self).sync_dir,
                repo_dir: final(self).repo_dir,
                ..*old(self)
            }),
            final(self).data_dir@ == regex_replace(tilde_source(), old(self).data_dir@, home@),
            final(self).sync_dir@ == regex_replace(tilde_source(), old(self).sync_dir@, home@),
            final(self).repo_dir@ == regex_replace(tilde_source(), old(self).repo_dir@, home@),
    {
        self.data_dir = expand_home(pats, self.data_dir.as_str(), home);
        self.sync_dir = expand_home(pats, self.sync_dir.as_str(), home);
        self.repo_dir = expand_home(pats, self.repo_dir.as_str(), home);
    }

    /// Cuts the end of the range of targets to the number of problems.
    pub fn fit_range(&mut self)
        ensures
            *final(self) == (Config {
                target_to: if old(self).target_to < old(self).benchmark@.len() {
                    old(self).target_to
                } else {
                    old(self).benchmark@.len() as usize
                },
                ..*old(self)
            }),
    {
        let n = self.benchmark.len();
        if n < self.target_to {
            self.target_to = n;
        }
    }
}

/// The identifier of a run: a solver given by its path is named by its file name
/// `solver_file`, followed by the date `stamp`; a solver built from the repository is named
/// as configured, followed by the date and the commit `commit_id`. A nonzero branch number
/// comes last.
pub open spec fn run_id_of(config: Config, solver_file: Seq<char>, stamp: Seq<char>, commit_id: Seq<char>) -> Seq<char> {
    let suffix = if config.seq_num == 0 {
        Seq::<char>::empty()
    } else {
        "-"@ + decimal(config.seq_num as nat)
    };
    if is_absolute(config.solver@) {
        solver_file + "-"@ + stamp + suffix
    } else {
        config.solver@ + "-"@ + stamp + "-"@ + commit_id + suffix
    }
}

/// A run is named after its solver and date, and a nonzero branch number ends every run id,
/// for a solver given by its path and for one built from the repository alike.
pub proof fn law_run_id_names_branch(config: Config, solver_file: Seq<char>, stamp: Seq<char>, commit_id: Seq<char>)
    ensures
        ({
            let id = run_id_of(config, solver_file, stamp, commit_id);
            let tag = "-"@ + decimal(config.seq_num as nat);
            let head = if is_absolute(config.solver@) {
                solver_file
            } else {
                config.solver@
            } + "-"@ + stamp;
            &&& config.seq_num != 0 ==> id.len() >= tag.len() && id.subrange(id.len() - tag.len(), id.len() as int)
                == tag
            &&& id.len() >= head.len() && id.subrange(0, head.len() as int) == head
        }),
{
    let id = run_id_of(config, solver_file, stamp, commit_id);
    let tag = "-"@ + decimal(config.seq_num as nat);
    let suffix = if config.seq_num == 0 {
        Seq::<char>::empty()
    } else {
        tag
    };
    let head = if is_absolute(config.solver@) {
        solver_file
    } else {
        config.solver@
    } + "-"@ + stamp;
    let middle = if is_absolute(config.solver@) {
        Seq::<char>::empty()
    } else {
        "-"@ + commit_id
    };
    assert(id =~= head + middle + suffix);
    assert((head + middle + suffix).subrange(0, head.len() as int) =~= head);
    if config.seq_num != 0 {
        assert((head + middle + tag).subrange(id.len() - tag.len(), id.len() as int) =~= tag);
    }
}

/// The identifier of a run.
pub fn run_id(config: &Config, solver_file: &str, stamp: &str, commit_id: &str) -> (id: String)
    ensures
        id@ == run_id_of(*config, solver_file@, stamp@, commit_id@),
{
    let solver = chars_of(config.solver.as_str());
    let mut id = if solver.len() > 0 && solver[0] == '/' {
        let mut id = String::from_str(solver_file);
        id.append("-");
        id.append(stamp);
        id
    } else {
        let mut id = String::from_str(config.solver.as_str());
        id.append("-");
        id.append(stamp);
        id.append("-");
        id.append(commit_id);
        id
    };
    if config.seq_num != 0 {
        id.append("-");
        let n = decimal_string(config.seq_num);
        id.append(n.as_str());
    }
    assert(id@ =~= run_id_of(*config, solver_file@, stamp@, commit_id@));
    id
}

/// Where the solver's output on problem `name` is kept: `.ans_` and the name, in the answer
/// directory.
pub fn answer_path(config: &Config, name: &str) -> (p: String)
    ensures
        p@ == joined(config.dump_dir@, ".ans_"@ + name@),
{
    let mut file = String::from_str(".ans_");
    file.append(name);
    join_path(config.dump_dir.as_str(), file.as_str())
}

/// Where the report of the run is written: `<run id>-<benchmark>.csv` in the sharing
/// directory.
pub fn report_path(config: &Config) -> (p: String)
    ensures
        p@ == joined(config.sync_dir@, config.run_id@ + "-"@ + config.benchmark_name@ + ".csv"@),
{
    let mut file = String::from_str(config.run_id.as_str());
    file.append("-");
    file.append(config.benchmark_name.as_str());
    file.append(".csv");
    join_path(config.sync_dir.as_str(), file.as_str())
}

} // verus!
