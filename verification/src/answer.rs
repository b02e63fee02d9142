//! Reading a solver's answer file: what each line says, and what the whole file says.
use vstd::prelude::*;
use crate::number::{is_float_text, parses_as_float};
use crate::text::texts;
use crate::pattern::{captures, compile, group_texts, is_match, regex_captures, regex_compiles, regex_is_match, Pattern};

verus! {

/// Source of the pattern of a satisfiable verdict.
pub open spec fn sat_source() -> Seq<char> {
    "\\bSATISFIABLE\\b"@
}

/// Source of the pattern of an unsatisfiable verdict.
pub open spec fn unsat_source() -> Seq<char> {
    "\\bUNSATISFIABLE\\b"@
}

/// Source of the pattern of Splr's strategy line, which holds the mode and the time.
pub open spec fn strategy_source() -> Seq<char> {
    "^c +Strategy\\|mode: +([^,]+), time: +([.0-9]+)"@
}

/// Source of the pattern of Glucose's time line.
pub open spec fn cpu_time_source() -> Seq<char> {
    "^c CPU time +: ([.0-9]+)"@
}

/// The compiled patterns that read answer files.
pub struct AnswerPatterns {
    sat: Pattern,
    unsat: Pattern,
    strategy: Pattern,
    cpu_time: Pattern,
}

impl AnswerPatterns {
    #[verifier::type_invariant]
    spec fn compiled_from_sources(self) -> bool {
        &&& self.sat@ == sat_source()
        &&& self.unsat@ == unsat_source()
        &&& self.strategy@ == strategy_source()
        &&& self.cpu_time@ == cpu_time_source()
    }

    /// Compiles the patterns; `None` when one of them does not compile.
    pub fn new() -> (p: Option<AnswerPatterns>)
        ensures
            p is Some <==> (regex_compiles(sat_source()) && regex_compiles(unsat_source())
                && regex_compiles(strategy_source()) && regex_compiles(cpu_time_source())),
    {
        let sat = compile("\\bSATISFIABLE\\b");
        let unsat = compile("\\bUNSATISFIABLE\\b");
        let strategy = compile("^c +Strategy\\|mode: +([^,]+), time: +([.0-9]+)");
        let cpu_time = compile("^c CPU time +: ([.0-9]+)");
        match (sat, unsat, strategy, cpu_time) {
            (Some(sat), Some(unsat), Some(strategy), Some(cpu_time)) => Some(
                AnswerPatterns { sat, unsat, strategy, cpu_time },
            ),
            _ => None,
        }
    }
}

/// What a line of an answer file says.
pub enum LineKind {
    Sat,
    Unsat,
    /// the strategy (mode) and the time reported by Splr
    Strategy { mode: String, time: String },
    /// the time reported by Glucose
    CpuTime { time: String },
    Other,
}

/// The view of a `LineKind`.
pub enum LineView {
    Sat,
    Unsat,
    Strategy { mode: Seq<char>, time: Seq<char> },
    CpuTime { time: Seq<char> },
    Other,
}

impl View for LineKind {
    type V = LineView;

    open spec fn view(&self) -> LineView {
        match self {
            LineKind::Sat => LineView::Sat,
            LineKind::Unsat => LineView::Unsat,
            LineKind::Strategy { mode, time } => LineView::Strategy { mode: mode@, time: time@ },
            LineKind::CpuTime { time } => LineView::CpuTime { time: time@ },
            LineKind::Other => LineView::Other,
        }
    }
}

/// What a line says, given whether it matches the verdict patterns and the groups of the
/// time patterns: the patterns are tried in the order satisfiable, unsatisfiable, strategy,
/// CPU time. `None` when a matching time pattern lacks a group.
pub open spec fn kind_from(
    sat: bool,
    unsat: bool,
    strategy: Option<Seq<Option<Seq<char>>>>,
    cpu_time: Option<Seq<Option<Seq<char>>>>,
) -> Option<LineView> {
    if sat {
        Some(LineView::Sat)
    } else if unsat {
        Some(LineView::Unsat)
    } else if let Some(g) = strategy {
        if g.len() > 2 && g[1] is Some && g[2] is Some {
            Some(LineView::Strategy { mode: g[1]->0, time: g[2]->0 })
        } else {
            None
        }
    } else if let Some(g) = cpu_time {
        if g.len() > 1 && g[1] is Some {
            Some(LineView::CpuTime { time: g[1]->0 })
        } else {
            None
        }
    } else {
        Some(LineView::Other)
    }
}

/// What the line `line` says.
pub open spec fn line_view(line: Seq<char>) -> Option<LineView> {
    kind_from(
        regex_is_match(sat_source(), line),
        regex_is_match(unsat_source(), line),
        regex_captures(strategy_source(), line),
        regex_captures(cpu_time_source(), line),
    )
}

fn group(groups: &Vec<Option<String>>, i: usize) -> (g: Option<String>)
    ensures
        match g {
            Some(t) => i < groups@.len() && groups@[i as int] is Some && t@ == groups@[i as int]->0@,
            None => i >= groups@.len() || groups@[i as int] is None,
        },
{
    if i < groups.len() {
        match &groups[i] {
            Some(t) => Some(t.clone()),
            None => None,
        }
    } else {
        None
    }
}

/// What a line says, given the results of the four pattern tests.
pub fn kind_of_matches(
    sat: bool,
    unsat: bool,
    strategy: Option<Vec<Option<String>>>,
    cpu_time: Option<Vec<Option<String>>>,
) -> (k: Option<LineKind>)
    ensures
        match k {
            Some(k) => kind_from(
                sat,
                unsat,
                match strategy {
                    Some(g) => Some(group_texts(g@)),
                    None => None,
                },
                match cpu_time {
                    Some(g) => Some(group_texts(g@)),
                    None => None,
                },
            ) == Some(k@),
            None => kind_from(
                sat,
                unsat,
                match strategy {
                    Some(g) => Some(group_texts(g@)),
                    None => None,
                },
                match cpu_time {
                    Some(g) => Some(group_texts(g@)),
                    None => None,
                },
            ) is None,
        },
{
    if sat {
        Some(LineKind::Sat)
    } else if unsat {
        Some(LineKind::Unsat)
    } else if let Some(g) = strategy {
        match (group(&g, 1), group(&g, 2)) {
            (Some(mode), Some(time)) => Some(LineKind::Strategy { mode, time }),
            _ => None,
        }
    } else if let Some(g) = cpu_time {
        match group(&g, 1) {
            Some(time) => Some(LineKind::CpuTime { time }),
            None => None,
        }
    } else {
        Some(LineKind::Other)
    }
}

/// What the line `line` of an answer file says; `None` when a matching time pattern lacks a
/// group.
pub fn classify_line(pats: &AnswerPatterns, line: &str) -> (k: Option<LineKind>)
    ensures
        match k {
            Some(k) => line_view(line@) == Some(k@),
            None => line_view(line@) is None,
        },
{
    proof {
        use_type_invariant(pats);
    }
    let sat = is_match(&pats.sat, line);
    let unsat = is_match(&pats.unsat, line);
    let strategy = captures(&pats.strategy, line);
    let cpu_time = captures(&pats.cpu_time, line);
    kind_of_matches(sat, unsat, strategy, cpu_time)
}

/// What the lines read so far say: the last time that parses as a number, the verdict, and
/// the strategy.
pub struct AnswerScan {
    pub time: Option<String>,
    pub found: Option<bool>,
    pub strategy: String,
}

/// The view of an `AnswerScan`.
pub open spec fn scan_view(s: AnswerScan) -> (Option<Seq<char>>, Option<bool>, Seq<char>) {
    (
        match s.time {
            Some(t) => Some(t@),
            None => None,
        },
        s.found,
        s.strategy@,
    )
}

/// The effect of one line saying `k`; `None` for a second verdict.
pub open spec fn scan_step(s: (Option<Seq<char>>, Option<bool>, Seq<char>), k: LineView) -> Option<
    (Option<Seq<char>>, Option<bool>, Seq<char>),
> {
    match k {
        LineView::Sat => if s.1 is Some {
            None
        } else {
            Some((s.0, Some(true), s.2))
        },
        LineView::Unsat => if s.1 is Some {
            None
        } else {
            Some((s.0, Some(false), s.2))
        },
        LineView::Strategy { mode, time } => Some(
            (
                if is_float_text(time) {
                    Some(time)
                } else {
                    s.0
                },
                s.1,
                mode,
            ),
        ),
        LineView::CpuTime { time } => Some(
            (
                if is_float_text(time) {
                    Some(time)
                } else {
                    s.0
                },
                s.1,
                s.2,
            ),
        ),
        LineView::Other => Some(s),
    }
}

/// What the lines `lines` of an answer file say, read in order; `None` when a line gives a
/// second verdict or a time line lacks its groups.
pub open spec fn scan_lines(lines: Seq<Seq<char>>) -> Option<(Option<Seq<char>>, Option<bool>, Seq<char>)>
    decreases lines.len(),
{
    if lines.len() == 0 {
        Some((None, None, seq![]))
    } else {
        match scan_lines(lines.drop_last()) {
            None => None,
            Some(s) => match line_view(lines.last()) {
                None => None,
                Some(k) => scan_step(s, k),
            },
        }
    }
}

/// Whether an answer file can be read: no line gives a second verdict and every time line
/// has its groups.
pub open spec fn readable(lines: Seq<Seq<char>>) -> bool {
    scan_lines(lines) is Some
}

proof fn lemma_unreadable_stays(lines: Seq<Seq<char>>, i: int)
    requires
        0 <= i <= lines.len(),
        scan_lines(lines.take(i)) is None,
    ensures
        scan_lines(lines) is None,
    decreases lines.len() - i,
{
    if i < lines.len() {
        assert(lines.drop_last().take(i) =~= lines.take(i));
        lemma_unreadable_stays(lines.drop_last(), i);
    } else {
        assert(lines.take(i) =~= lines);
    }
}

/// The time of the last time line of `lines`, from Splr's strategy line or Glucose's CPU
/// time line, whose time parses as a number.
pub open spec fn last_time(lines: Seq<Seq<char>>) -> Option<Seq<char>>
    decreases lines.len(),
{
    if lines.len() == 0 {
        None
    } else {
        let t = match line_view(lines.last()) {
            Some(LineView::Strategy { time, .. }) => Some(time),
            Some(LineView::CpuTime { time }) => Some(time),
            _ => None,
        };
        if t matches Some(time) && is_float_text(time) {
            t
        } else {
            last_time(lines.drop_last())
        }
    }
}

/// The mode of the last strategy line of `lines`, empty when there is none.
pub open spec fn last_mode(lines: Seq<Seq<char>>) -> Seq<char>
    decreases lines.len(),
{
    if lines.len() == 0 {
        seq![]
    } else {
        match line_view(lines.last()) {
            Some(LineView::Strategy { mode, .. }) => mode,
            _ => last_mode(lines.drop_last()),
        }
    }
}

/// The verdict of the last verdict line of `lines`: `true` for satisfiable.
pub open spec fn last_verdict(lines: Seq<Seq<char>>) -> Option<bool>
    decreases lines.len(),
{
    if lines.len() == 0 {
        None
    } else if line_view(lines.last()) matches Some(LineView::Sat) {
        Some(true)
    } else if line_view(lines.last()) matches Some(LineView::Unsat) {
        Some(false)
    } else {
        last_verdict(lines.drop_last())
    }
}

/// What a readable answer file says is read line by line, each part on its own: the time is
/// that of the last time line whose time parses as a number, whatever verdict lines stand
/// before or after it; the verdict is that of its verdict line; the strategy is the mode of
/// its last strategy line.
pub proof fn law_answer_parts(lines: Seq<Seq<char>>)
    requires
        readable(lines),
    ensures
        scan_lines(lines) == Some((last_time(lines), last_verdict(lines), last_mode(lines))),
    decreases lines.len(),
{
    if lines.len() > 0 {
        let d = lines.drop_last();
        if scan_lines(d) is None {
            assert(lines.take(lines.len() - 1) =~= d);
            lemma_unreadable_stays(lines, lines.len() - 1);
        }
        law_answer_parts(d);
    }
}

/// A verdict line sets the verdict and nothing else: the time and the strategy given by the
/// lines before it are kept.
pub proof fn law_verdict_keeps_time(lines: Seq<Seq<char>>, line: Seq<char>)
    requires
        readable(lines.push(line)),
        line_view(line) matches Some(k) && (k is Sat || k is Unsat),
    ensures
        (scan_lines(lines.push(line))->0).0 == (scan_lines(lines)->0).0,
        (scan_lines(lines.push(line))->0).2 == (scan_lines(lines)->0).2,
        (scan_lines(lines.push(line))->0).1 == Some(line_view(line)->0 is Sat),
        (scan_lines(lines)->0).1 is None,
{
    assert(lines.push(line).drop_last() =~= lines);
}

/// Whether the lines of an answer file can be read: the test to make before `scan_answer`,
/// `parse_result` and `timed_result`.
pub fn answer_readable(pats: &AnswerPatterns, lines: &Vec<String>) -> (b: bool)
    ensures
        b == readable(texts(lines@)),
{
    let mut found: bool = false;
    let mut i: usize = 0;
    assert(texts(lines@).take(0) =~= Seq::<Seq<char>>::empty());
    while i < lines.len()
        invariant
            i <= lines@.len(),
            scan_lines(texts(lines@).take(i as int)) is Some,
            found == ((scan_lines(texts(lines@).take(i as int))->0).1 is Some),
        decreases lines@.len() - i,
    {
        let ghost before = texts(lines@).take(i as int);
        proof {
            assert(texts(lines@).take(i + 1).drop_last() =~= before);
            assert(texts(lines@).take(i + 1).last() == lines@[i as int]@);
        }
        match classify_line(pats, lines[i].as_str()) {
            None => {
                proof {
                    lemma_unreadable_stays(texts(lines@), i + 1);
                }
                return false;
            },
            Some(k) => match k {
                LineKind::Sat | LineKind::Unsat => {
                    if found {
                        proof {
                            lemma_unreadable_stays(texts(lines@), i + 1);
                        }
                        return false;
                    }
                    found = true;
                },
                _ => {},
            },
        }
        i = i + 1;
    }
    assert(texts(lines@).take(i as int) =~= texts(lines@));
    true
}

/// Reads the lines of a readable answer file.
pub fn scan_answer(pats: &AnswerPatterns, lines: &Vec<String>) -> (s: AnswerScan)
    requires
        readable(texts(lines@)),
    ensures
        scan_lines(texts(lines@)) == Some(scan_view(s)),
{
    let mut s = AnswerScan { time: None, found: None, strategy: String::new() };
    let mut i: usize = 0;
    assert(texts(lines@).take(0) =~= Seq::<Seq<char>>::empty());
    while i < lines.len()
        invariant
            i <= lines@.len(),
            readable(texts(lines@)),
            scan_lines(texts(lines@).take(i as int)) == Some(scan_view(s)),
        decreases lines@.len() - i,
    {
        let ghost before = texts(lines@).take(i as int);
        proof {
            assert(texts(lines@).take(i + 1).drop_last() =~= before);
            assert(texts(lines@).take(i + 1).last() == lines@[i as int]@);
            if scan_lines(texts(lines@).take(i + 1)) is None {
                lemma_unreadable_stays(texts(lines@), i + 1);
            }
        }
        match classify_line(pats, lines[i].as_str()) {
            None => {},
            Some(k) => match k {
                LineKind::Sat => {
                    s.found = Some(true);
                },
                LineKind::Unsat => {
                    s.found = Some(false);
                },
                LineKind::Strategy { mode, time } => {
                    s.strategy = mode;
                    if parses_as_float(time.as_str()) {
                        s.time = Some(time);
                    }
                },
                LineKind::CpuTime { time } => {
                    if parses_as_float(time.as_str()) {
                        s.time = Some(time);
                    }
                },
                LineKind::Other => {},
            },
        }
        i = i + 1;
    }
    assert(texts(lines@).take(i as int) =~= texts(lines@));
    s
}

/// A decided answer: the time text, the verdict and the strategy.
pub struct DecidedAnswer {
    pub time: String,
    pub sat: bool,
    pub strategy: String,
}

/// Whether `r` is what the readable lines `lines` give as a decided answer: the time,
/// verdict and strategy when the file gives both a time and a verdict, else `None`.
pub open spec fn decided_as(lines: Seq<Seq<char>>, r: Option<DecidedAnswer>) -> bool {
    match scan_lines(lines) {
        Some((time, found, strategy)) => match r {
            Some(a) => time == Some(a.time@) && found == Some(a.sat) && strategy == a.strategy@,
            None => time is None || found is None,
        },
        None => false,
    }
}

/// The time, verdict and strategy of a readable answer file that gives both a time and a
/// verdict; `None` when one of them is missing.
pub fn parse_result(pats: &AnswerPatterns, lines: &Vec<String>) -> (r: Option<DecidedAnswer>)
    requires
        readable(texts(lines@)),
    ensures
        decided_as(texts(lines@), r),
{
    let s = scan_answer(pats, lines);
    match (s.time, s.found) {
        (Some(time), Some(sat)) => Some(DecidedAnswer { time, sat, strategy: s.strategy }),
        _ => None,
    }
}

/// What `parse_result` gives for the lines of an answer file, or `None` when they cannot be
/// read.
pub fn checked_parse_result(pats: &AnswerPatterns, lines: &Vec<String>) -> (r: Option<Option<DecidedAnswer>>)
    ensures
        r is Some <==> readable(texts(lines@)),
        r matches Some(a) ==> decided_as(texts(lines@), a),
{
    if answer_readable(pats, lines) {
        Some(parse_result(pats, lines))
    } else {
        None
    }
}

/// An answer with a time: the time text, the verdict when the solver decided the problem,
/// and the strategy.
pub struct TimedAnswer {
    pub time: String,
    pub verdict: Option<bool>,
    pub strategy: String,
}

/// Whether `r` is what the readable lines `lines` give as a timed answer: the time, verdict
/// if any, and strategy when the file gives a time, else `None`.
pub open spec fn timed_as(lines: Seq<Seq<char>>, r: Option<TimedAnswer>) -> bool {
    match scan_lines(lines) {
        Some((time, found, strategy)) => match r {
            Some(a) => time == Some(a.time@) && found == a.verdict && strategy == a.strategy@,
            None => time is None,
        },
        None => false,
    }
}

/// The time, verdict if any, and strategy of a readable answer file that gives a time;
/// `None` when no time is given.
pub fn timed_result(pats: &AnswerPatterns, lines: &Vec<String>) -> (r: Option<TimedAnswer>)
    requires
        readable(texts(lines@)),
    ensures
        timed_as(texts(lines@), r),
{
    let s = scan_answer(pats, lines);
    match s.time {
        Some(time) => Some(TimedAnswer { time, verdict: s.found, strategy: s.strategy }),
        None => None,
    }
}

/// What `timed_result` gives for the lines of an answer file, or `None` when they cannot be
/// read.
pub fn checked_timed_result(pats: &AnswerPatterns, lines: &Vec<String>) -> (r: Option<Option<TimedAnswer>>)
    ensures
        r is Some <==> readable(texts(lines@)),
        r matches Some(a) ==> timed_as(texts(lines@), a),
{
    if answer_readable(pats, lines) {
        Some(timed_result(pats, lines))
    } else {
        None
    }
}

} // verus!
