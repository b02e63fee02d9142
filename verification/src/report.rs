//! The report of a benchmark run: which answer files belong to which problems, the totals,
//! the use of each strategy, and one row per problem.
use vstd::prelude::*;
use crate::text::{chars_of, same_text};

verus! {

/// `a` comes before `b` in the order of `String`: the lexicographic order of the characters'
/// code points, which is the order of their UTF-8 bytes.
pub open spec fn text_less(a: Seq<char>, b: Seq<char>) -> bool
    decreases a.len(),
{
    if a.len() == 0 {
        b.len() > 0
    } else if b.len() == 0 {
        false
    } else if a[0] != b[0] {
        a[0] < b[0]
    } else {
        text_less(a.drop_first(), b.drop_first())
    }
}

/// `text_less` is irreflexive.
pub proof fn lemma_text_less_irreflexive(a: Seq<char>)
    ensures
        !text_less(a, a),
    decreases a.len(),
{
    if a.len() > 0 {
        lemma_text_less_irreflexive(a.drop_first());
    }
}

/// `text_less` is transitive.
pub proof fn lemma_text_less_transitive(a: Seq<char>, b: Seq<char>, c: Seq<char>)
    requires
        text_less(a, b),
        text_less(b, c),
    ensures
        text_less(a, c),
    decreases a.len(),
{
    if a.len() > 0 && b.len() > 0 && c.len() > 0 && a[0] == b[0] && b[0] == c[0] {
        lemma_text_less_transitive(a.drop_first(), b.drop_first(), c.drop_first());
    }
}

/// Of two different texts, one comes before the other.
pub proof fn lemma_text_less_total(a: Seq<char>, b: Seq<char>)
    requires
        a != b,
    ensures
        text_less(a, b) || text_less(b, a),
    decreases a.len(),
{
    if a.len() > 0 && b.len() > 0 && a[0] == b[0] {
        if a.drop_first() == b.drop_first() {
            assert(a =~= seq![a[0]] + a.drop_first());
            assert(b =~= seq![b[0]] + b.drop_first());
        }
        lemma_text_less_total(a.drop_first(), b.drop_first());
    } else if a.len() > 0 && b.len() > 0 {
        assert(a[0] < b[0] || b[0] < a[0]);
    } else if a.len() == 0 && b.len() == 0 {
        assert(a =~= b);
    }
}

/// Whether `a` comes before `b`.
pub fn is_text_less(a: &Vec<char>, b: &Vec<char>) -> (less: bool)
    ensures
        less == text_less(a@, b@),
{
    let mut i: usize = 0;
    assert(a@.skip(0) =~= a@);
    assert(b@.skip(0) =~= b@);
    while i < a.len() && i < b.len()
        invariant
            i <= a@.len(),
            i <= b@.len(),
            forall|k: int| 0 <= k < i ==> a@[k] == b@[k],
            text_less(a@, b@) == text_less(a@.skip(i as int), b@.skip(i as int)),
        decreases a@.len() - i,
    {
        if a[i] != b[i] {
            return a[i] < b[i];
        }
        assert(a@.skip(i as int).drop_first() =~= a@.skip(i + 1));
        assert(b@.skip(i as int).drop_first() =~= b@.skip(i + 1));
        i = i + 1;
    }
    i < b.len()
}

/// The prefix of every answer file's name.
pub open spec fn answer_prefix() -> Seq<char> {
    ".ans_"@
}

/// The first problem of `bench` named `name`.
pub open spec fn first_named(bench: Seq<(usize, String)>, name: Seq<char>) -> Option<int>
    decreases bench.len(),
{
    if bench.len() == 0 {
        None
    } else if bench[0].1@ == name {
        Some(0)
    } else {
        match first_named(bench.drop_first(), name) {
            Some(i) => Some(i + 1),
            None => None,
        }
    }
}

/// The problem that the file `fname` answers: the first one named as `fname` without its
/// `.ans_` prefix; `None` for a file without that prefix or for an unknown problem.
pub open spec fn answered_problem(bench: Seq<(usize, String)>, fname: Seq<char>) -> Option<int> {
    if fname.len() >= 5 && fname.take(5) == answer_prefix() {
        first_named(bench, fname.skip(5))
    } else {
        None
    }
}

/// The first problem named `name`.
pub fn find_named(bench: &Vec<(usize, String)>, name: &str) -> (k: Option<usize>)
    ensures
        match first_named(bench@, name@) {
            Some(i) => k == Some(i as usize),
            None => k is None,
        },
{
    let mut i: usize = 0;
    assert(bench@.skip(0) =~= bench@);
    while i < bench.len()
        invariant
            i <= bench@.len(),
            first_named(bench@, name@) == match first_named(bench@.skip(i as int), name@) {
                Some(k) => Some(k + i),
                None => None::<int>,
            },
        decreases bench@.len() - i,
    {
        assert(bench@.skip(i as int)[0] == bench@[i as int]);
        if same_text(bench[i].1.as_str(), name) {
            return Some(i);
        }
        assert(bench@.skip(i as int).drop_first() =~= bench@.skip(i + 1));
        i = i + 1;
    }
    None
}

/// The problem of `bench` that the file `fname` answers.
pub fn answer_key(bench: &Vec<(usize, String)>, fname: &str) -> (k: Option<usize>)
    ensures
        match answered_problem(bench@, fname@) {
            Some(i) => k == Some(i as usize),
            None => k is None,
        },
{
    let cs = chars_of(fname);
    proof {
        reveal_strlit(".ans_");
    }
    if cs.len() >= 5 && cs[0] == '.' && cs[1] == 'a' && cs[2] == 'n' && cs[3] == 's' && cs[4] == '_' {
        assert(cs@.take(5) =~= answer_prefix());
        let n = fname.unicode_len();
        let rest = fname.substring_char(5, n);
        find_named(bench, rest)
    } else {
        assert(cs@.len() >= 5 ==> cs@.take(5)[0] == cs@[0] && cs@.take(5)[1] == cs@[1] && cs@.take(5)[2]
            == cs@[2] && cs@.take(5)[3] == cs@[3] && cs@.take(5)[4] == cs@[4]);
        None
    }
}

/// What an answer file says: the verdict when the solver decided the problem, and the
/// strategy it used.
pub struct ParsedAnswer {
    pub verdict: Option<bool>,
    pub strategy: String,
}

/// An answer file, in the order the directory lists them: the problem it answers and what it
/// says, `None` when it could not be read as an answer.
pub type AnswerEntry = (usize, Option<ParsedAnswer>);

/// The view of a table of strategies: each strategy with the number of problems it solved
/// and the number it did not.
pub open spec fn table_view(t: Seq<(String, (usize, usize))>) -> Seq<(Seq<char>, (usize, usize))> {
    t.map_values(|e: (String, (usize, usize))| (e.0@, e.1))
}

/// Where `name` goes in the table `t`, kept in increasing order of names: after every name
/// that comes before it.
pub open spec fn slot(t: Seq<(Seq<char>, (usize, usize))>, name: Seq<char>) -> nat
    decreases t.len(),
{
    if t.len() == 0 {
        0
    } else if text_less(t[0].0, name) {
        1 + slot(t.drop_first(), name)
    } else {
        0
    }
}

/// The table `t` after one more problem run with strategy `name`, solved or not: the
/// strategy's count goes up by one, and a strategy not seen before comes in at its place.
pub open spec fn bump(t: Seq<(Seq<char>, (usize, usize))>, name: Seq<char>, solved: bool) -> Seq<
    (Seq<char>, (usize, usize)),
> {
    let i = slot(t, name) as int;
    if i < t.len() && t[i].0 == name {
        let c = t[i].1;
        t.update(
            i,
            (name, if solved {
                ((c.0 + 1) as usize, c.1)
            } else {
                (c.0, (c.1 + 1) as usize)
            }),
        )
    } else {
        t.insert(i, (name, if solved {
            (1usize, 0usize)
        } else {
            (0usize, 1usize)
        }))
    }
}

/// The strategy table of the answers `a`.
pub open spec fn strategy_table(a: Seq<AnswerEntry>) -> Seq<(Seq<char>, (usize, usize))>
    decreases a.len(),
{
    if a.len() == 0 {
        seq![]
    } else {
        let t = strategy_table(a.drop_last());
        match a.last().1 {
            Some(p) => bump(t, p.strategy@, p.verdict is Some),
            None => t,
        }
    }
}

/// An answer file that could be read.
pub open spec fn is_found(e: AnswerEntry) -> bool {
    e.1 is Some
}

/// An answer file with the verdict `sat`.
pub open spec fn has_verdict(e: AnswerEntry, sat: bool) -> bool {
    e.1 matches Some(p) && p.verdict == Some(sat)
}

/// Every count in the table is at most `n`.
pub open spec fn counts_within(t: Seq<(Seq<char>, (usize, usize))>, n: nat) -> bool {
    forall|k: int| 0 <= k < t.len() ==> t[k].1.0 <= n && t[k].1.1 <= n
}

proof fn lemma_slot_bound(t: Seq<(Seq<char>, (usize, usize))>, name: Seq<char>)
    ensures
        slot(t, name) <= t.len(),
        forall|k: int| 0 <= k < slot(t, name) ==> text_less(t[k].0, name),
        slot(t, name) < t.len() ==> !text_less(t[slot(t, name) as int].0, name),
    decreases t.len(),
{
    if t.len() > 0 && text_less(t[0].0, name) {
        lemma_slot_bound(t.drop_first(), name);
        assert forall|k: int| 0 <= k < slot(t, name) implies text_less(t[k].0, name) by {
            if k > 0 {
                assert(t[k] == t.drop_first()[k - 1]);
            }
        }
    }
}

/// Counts a problem run with strategy `name` in the table `t`.
fn bump_table(t: &mut Vec<(String, (usize, usize))>, name: &String, solved: bool, Ghost(n): Ghost<nat>)
    requires
        counts_within(table_view(old(t)@), n),
        n < usize::MAX,
    ensures
        table_view(final(t)@) == bump(table_view(old(t)@), name@, solved),
        counts_within(table_view(final(t)@), n + 1),
{
    let ghost tv = table_view(t@);
    proof {
        lemma_slot_bound(tv, name@);
    }
    let key = chars_of(name.as_str());
    let mut i: usize = 0;
    while i < t.len()
        invariant
            tv == table_view(t@),
            i <= slot(tv, name@),
            slot(tv, name@) <= tv.len(),
            slot(tv, name@) < tv.len() ==> !text_less(tv[slot(tv, name@) as int].0, name@),
            forall|k: int| 0 <= k < slot(tv, name@) ==> text_less(tv[k].0, name@),
            key@ == name@,
        ensures
            i == slot(tv, name@),
        decreases t@.len() - i,
    {
        let other = chars_of(t[i].0.as_str());
        assert(tv[i as int].0 == t@[i as int].0@);
        if !is_text_less(&other, &key) {
            break;
        }
        i = i + 1;
    }
    if i < t.len() && same_text(t[i].0.as_str(), name.as_str()) {
        let c = t[i].1;
        let entry = if solved {
            (name.clone(), (c.0 + 1, c.1))
        } else {
            (name.clone(), (c.0, c.1 + 1))
        };
        t.set(i, entry);
        assert(table_view(t@) =~= bump(tv, name@, solved));
    } else {
        let entry = if solved {
            (name.clone(), (1usize, 0usize))
        } else {
            (name.clone(), (0usize, 1usize))
        };
        t.insert(i, entry);
        assert(table_view(t@) =~= bump(tv, name@, solved));
    }
}

/// The names of the table `t` increase strictly.
pub open spec fn names_increase(t: Seq<(Seq<char>, (usize, usize))>) -> bool {
    forall|i: int, j: int| 0 <= i < j < t.len() ==> text_less(t[i].0, t[j].0)
}

/// The numbers of solved problems in the table `t`, added up.
pub open spec fn solved_total(t: Seq<(Seq<char>, (usize, usize))>) -> nat
    decreases t.len(),
{
    if t.len() == 0 {
        0
    } else {
        solved_total(t.drop_last()) + t.last().1.0 as nat
    }
}

/// The numbers of unsolved problems in the table `t`, added up.
pub open spec fn unsolved_total(t: Seq<(Seq<char>, (usize, usize))>) -> nat
    decreases t.len(),
{
    if t.len() == 0 {
        0
    } else {
        unsolved_total(t.drop_last()) + t.last().1.1 as nat
    }
}

proof fn lemma_totals_update(t: Seq<(Seq<char>, (usize, usize))>, i: int, v: (Seq<char>, (usize, usize)))
    requires
        0 <= i < t.len(),
    ensures
        solved_total(t.update(i, v)) + t[i].1.0 == solved_total(t) + v.1.0,
        unsolved_total(t.update(i, v)) + t[i].1.1 == unsolved_total(t) + v.1.1,
    decreases t.len(),
{
    if i < t.len() - 1 {
        assert(t.update(i, v).drop_last() =~= t.drop_last().update(i, v));
        lemma_totals_update(t.drop_last(), i, v);
    } else {
        assert(t.update(i, v).drop_last() =~= t.drop_last());
    }
}

proof fn lemma_totals_insert(t: Seq<(Seq<char>, (usize, usize))>, i: int, v: (Seq<char>, (usize, usize)))
    requires
        0 <= i <= t.len(),
    ensures
        solved_total(t.insert(i, v)) == solved_total(t) + v.1.0,
        unsolved_total(t.insert(i, v)) == unsolved_total(t) + v.1.1,
    decreases t.len(),
{
    if i < t.len() {
        assert(t.insert(i, v).drop_last() =~= t.drop_last().insert(i, v));
        assert(t.insert(i, v).last() == t.last());
        lemma_totals_insert(t.drop_last(), i, v);
    } else {
        assert(t.insert(i, v).drop_last() =~= t);
    }
}

proof fn lemma_bump(t: Seq<(Seq<char>, (usize, usize))>, name: Seq<char>, solved: bool, n: nat)
    requires
        names_increase(t),
        counts_within(t, n),
        n < usize::MAX,
    ensures
        names_increase(bump(t, name, solved)),
        counts_within(bump(t, name, solved), n + 1),
        solved_total(bump(t, name, solved)) == solved_total(t) + if solved { 1nat } else { 0nat },
        unsolved_total(bump(t, name, solved)) == unsolved_total(t) + if solved { 0nat } else { 1nat },
{
    lemma_slot_bound(t, name);
    let i = slot(t, name) as int;
    let b = bump(t, name, solved);
    if i < t.len() && t[i].0 == name {
        lemma_totals_update(t, i, b[i]);
        assert forall|x: int, y: int| 0 <= x < y < b.len() implies text_less(b[x].0, b[y].0) by {
            assert(b[x].0 == t[x].0 && b[y].0 == t[y].0);
        }
    } else {
        let v = (name, if solved { (1usize, 0usize) } else { (0usize, 1usize) });
        lemma_totals_insert(t, i, v);
        if i < t.len() {
            lemma_text_less_total(t[i].0, name);
        }
        assert forall|x: int, y: int| 0 <= x < y < b.len() implies text_less(b[x].0, b[y].0) by {
            if y < i {
                assert(b[x] == t[x] && b[y] == t[y]);
            } else if y == i {
                assert(b[y].0 == name && b[x] == t[x]);
            } else if x == i {
                assert(b[y] == t[y - 1]);
                if y - 1 > i {
                    lemma_text_less_transitive(name, t[i].0, t[y - 1].0);
                }
            } else if x < i {
                assert(b[x] == t[x] && b[y] == t[y - 1]);
            } else {
                assert(b[x] == t[x - 1] && b[y] == t[y - 1]);
            }
        }
    }
}

/// A readable answer file with a verdict.
pub open spec fn is_decided(e: AnswerEntry) -> bool {
    e.1 matches Some(p) && p.verdict is Some
}

/// A readable answer file without a verdict.
pub open spec fn is_undecided(e: AnswerEntry) -> bool {
    e.1 matches Some(p) && p.verdict is None
}

/// The strategy table lists each strategy once, in increasing order of names; its solved
/// counts add up to the decided answers, and its unsolved counts to the readable answers
/// without a verdict.
pub proof fn lemma_strategy_table(a: Seq<AnswerEntry>)
    requires
        a.len() <= usize::MAX,
    ensures
        names_increase(strategy_table(a)),
        counts_within(strategy_table(a), a.len()),
        solved_total(strategy_table(a)) == a.filter(|e: AnswerEntry| is_decided(e)).len(),
        unsolved_total(strategy_table(a)) == a.filter(|e: AnswerEntry| is_undecided(e)).len(),
    decreases a.len(),
{
    let pd = |e: AnswerEntry| is_decided(e);
    let pu = |e: AnswerEntry| is_undecided(e);
    if a.len() == 0 {
        assert(a.filter(pd) =~= a) by {
            reveal(Seq::filter);
        }
        assert(a.filter(pu) =~= a) by {
            reveal(Seq::filter);
        }
    } else {
        lemma_strategy_table(a.drop_last());
        assert(a =~= a.drop_last().push(a.last()));
        a.drop_last().lemma_filter_push(a.last(), pd);
        a.drop_last().lemma_filter_push(a.last(), pu);
        if let Some(p) = a.last().1 {
            lemma_bump(strategy_table(a.drop_last()), p.strategy@, p.verdict is Some, a.drop_last().len());
        }
    }
}

proof fn lemma_verdict_counts(a: Seq<AnswerEntry>)
    ensures
        a.filter(|e: AnswerEntry| has_verdict(e, true)).len() + a.filter(|e: AnswerEntry| has_verdict(e, false)).len()
            == a.filter(|e: AnswerEntry| is_decided(e)).len(),
        a.filter(|e: AnswerEntry| is_decided(e)).len() + a.filter(|e: AnswerEntry| is_undecided(e)).len()
            == a.filter(|e: AnswerEntry| is_found(e)).len(),
    decreases a.len(),
{
    let ps = |e: AnswerEntry| has_verdict(e, true);
    let pn = |e: AnswerEntry| has_verdict(e, false);
    let pd = |e: AnswerEntry| is_decided(e);
    let pu = |e: AnswerEntry| is_undecided(e);
    let pf = |e: AnswerEntry| is_found(e);
    if a.len() == 0 {
        reveal(Seq::filter);
    } else {
        lemma_verdict_counts(a.drop_last());
        assert(a =~= a.drop_last().push(a.last()));
        a.drop_last().lemma_filter_push(a.last(), ps);
        a.drop_last().lemma_filter_push(a.last(), pn);
        a.drop_last().lemma_filter_push(a.last(), pd);
        a.drop_last().lemma_filter_push(a.last(), pu);
        a.drop_last().lemma_filter_push(a.last(), pf);
        if let Some(p) = a.last().1 {
            if let Some(b) = p.verdict {
                if b {
                    assert(ps(a.last()) && pd(a.last()) && !pn(a.last()) && !pu(a.last()));
                } else {
                    assert(!ps(a.last()) && pd(a.last()) && pn(a.last()) && !pu(a.last()));
                }
            } else {
                assert(!ps(a.last()) && !pd(a.last()) && !pn(a.last()) && pu(a.last()));
            }
        } else {
            assert(!ps(a.last()) && !pd(a.last()) && !pn(a.last()) && !pu(a.last()) && !pf(a.last()));
        }
    }
}

/// The last readable answer file for problem `k`.
pub open spec fn answer_of(a: Seq<AnswerEntry>, k: int) -> Option<int>
    decreases a.len(),
{
    if a.len() == 0 {
        None
    } else if a.last().0 == k && a.last().1 is Some {
        Some(a.len() - 1)
    } else {
        answer_of(a.drop_last(), k)
    }
}

proof fn lemma_answer_of(a: Seq<AnswerEntry>, k: int)
    ensures
        answer_of(a, k) matches Some(e) ==> 0 <= e < a.len() && a[e].0 == k && a[e].1 is Some,
    decreases a.len(),
{
    if a.len() > 0 && !(a.last().0 == k && a.last().1 is Some) {
        lemma_answer_of(a.drop_last(), k);
    }
}

proof fn lemma_first_named(bench: Seq<(usize, String)>, name: Seq<char>)
    ensures
        first_named(bench, name) matches Some(i) ==> 0 <= i < bench.len() && bench[i].1@ == name,
    decreases bench.len(),
{
    if bench.len() > 0 && bench[0].1@ != name {
        lemma_first_named(bench.drop_first(), name);
    }
}

/// What the report says of a problem.
pub enum RowCell {
    /// decided, as told by answer file `entry`
    Solved { entry: usize, strategy: String, sat: bool },
    /// answered without a verdict
    Unsolved { strategy: String },
    /// no answer
    Missing,
}

/// One row of the report.
pub struct ReportRow {
    /// the problem's number
    pub num: usize,
    /// the problem's file name
    pub key: String,
    /// the number of problems solved up to this one
    pub nsolved: usize,
    pub cell: RowCell,
}

/// What the report says of problem `i`: the answer kept for the first problem of that name.
pub open spec fn cell_of(bench: Seq<(usize, String)>, a: Seq<AnswerEntry>, i: int) -> RowCell {
    match first_named(bench, bench[i].1@) {
        Some(f) => match answer_of(a, f) {
            Some(e) => match a[e].1 {
                Some(p) => match p.verdict {
                    Some(b) => RowCell::Solved { entry: e as usize, strategy: p.strategy, sat: b },
                    None => RowCell::Unsolved { strategy: p.strategy },
                },
                None => RowCell::Missing,
            },
            None => RowCell::Missing,
        },
        None => RowCell::Missing,
    }
}

/// The number of the first `n` problems that the report shows as solved.
pub open spec fn solved_rows(bench: Seq<(usize, String)>, a: Seq<AnswerEntry>, n: int) -> nat
    decreases n,
{
    if n <= 0 {
        0
    } else {
        solved_rows(bench, a, n - 1) + if cell_of(bench, a, n - 1) is Solved {
            1nat
        } else {
            0nat
        }
    }
}

/// The report's row for problem `i`.
pub open spec fn row_of(bench: Seq<(usize, String)>, a: Seq<AnswerEntry>, i: int) -> ReportRow {
    ReportRow {
        num: bench[i].0,
        key: bench[i].1,
        nsolved: solved_rows(bench, a, i + 1) as usize,
        cell: cell_of(bench, a, i),
    }
}

/// A solved row is backed by a readable answer file of a problem of the row's name.
pub open spec fn answer_fits_row(bench: Seq<(usize, String)>, a: Seq<AnswerEntry>, row: ReportRow) -> bool {
    match row.cell {
        RowCell::Solved { entry, .. } => {
            &&& entry < a.len()
            &&& a[entry as int].1 is Some
            &&& bench[a[entry as int].0 as int].1@ == row.key@
        },
        _ => true,
    }
}

/// No two problems of `bench` share a name.
pub open spec fn names_distinct(bench: Seq<(usize, String)>) -> bool {
    forall|i: int, j: int| 0 <= i < j < bench.len() ==> bench[i].1@ != bench[j].1@
}

/// The number of the problems `0..n` whose kept answer file has a verdict.
pub open spec fn decided_problems(a: Seq<AnswerEntry>, n: int) -> nat
    decreases n,
{
    if n <= 0 {
        0
    } else {
        decided_problems(a, n - 1) + if answer_of(a, n - 1) matches Some(e) && is_decided(a[e]) {
            1nat
        } else {
            0nat
        }
    }
}

proof fn lemma_first_named_distinct(bench: Seq<(usize, String)>, i: int)
    requires
        names_distinct(bench),
        0 <= i < bench.len(),
    ensures
        first_named(bench, bench[i].1@) == Some(i),
    decreases i,
{
    if i > 0 {
        let rest = bench.drop_first();
        assert(rest[i - 1] == bench[i]);
        assert(names_distinct(rest)) by {
            assert forall|x: int, y: int| 0 <= x < y < rest.len() implies rest[x].1@ != rest[y].1@ by {
                assert(rest[x] == bench[x + 1] && rest[y] == bench[y + 1]);
            }
        }
        lemma_first_named_distinct(rest, i - 1);
    }
}

proof fn lemma_solved_rows_distinct(bench: Seq<(usize, String)>, a: Seq<AnswerEntry>, n: int)
    requires
        names_distinct(bench),
        0 <= n <= bench.len(),
    ensures
        solved_rows(bench, a, n) == decided_problems(a, n),
    decreases n,
{
    if n > 0 {
        lemma_solved_rows_distinct(bench, a, n - 1);
        lemma_first_named_distinct(bench, n - 1);
        lemma_answer_of(a, n - 1);
    }
}

proof fn lemma_decided_problems_push(a: Seq<AnswerEntry>, x: AnswerEntry, n: int)
    requires
        x.1 is Some ==> answer_of(a, x.0 as int) is None,
        0 <= n,
    ensures
        decided_problems(a.push(x), n) == decided_problems(a, n) + if x.0 < n && is_decided(x) {
            1nat
        } else {
            0nat
        },
    decreases n,
{
    if n > 0 {
        lemma_decided_problems_push(a, x, n - 1);
        let b = a.push(x);
        assert(b.drop_last() =~= a);
        assert(b.last() == x);
        lemma_answer_of(a, n - 1);
    }
}

proof fn lemma_decided_problems(a: Seq<AnswerEntry>, n: int)
    requires
        answers_unique(a),
        forall|i: int| 0 <= i < a.len() ==> a[i].0 < n,
        0 <= n,
    ensures
        decided_problems(a, n) == a.filter(|e: AnswerEntry| is_decided(e)).len(),
    decreases a.len(),
{
    let pd = |e: AnswerEntry| is_decided(e);
    if a.len() == 0 {
        assert(decided_problems(a, n) == 0) by {
            lemma_no_answers(a, n);
        }
        assert(a.filter(pd) =~= a) by {
            reveal(Seq::filter);
        }
    } else {
        let p = a.drop_last();
        let x = a.last();
        assert(a =~= p.push(x));
        assert(answers_unique(p)) by {
            assert forall|i: int, j: int| 0 <= i < j < p.len() && p[i].0 == p[j].0 implies p[i].1 is None by {
                assert(p[i] == a[i] && p[j] == a[j]);
            }
        }
        lemma_decided_problems(p, n);
        if x.1 is Some {
            lemma_answer_of(p, x.0 as int);
            if let Some(e) = answer_of(p, x.0 as int) {
                assert(a[e] == p[e]);
                assert(a[a.len() - 1] == x);
            }
        }
        lemma_decided_problems_push(p, x, n);
        p.lemma_filter_push(x, pd);
    }
}

proof fn lemma_no_answers(a: Seq<AnswerEntry>, n: int)
    requires
        a.len() == 0,
    ensures
        decided_problems(a, n) == 0,
    decreases n,
{
    if n > 0 {
        lemma_no_answers(a, n - 1);
    }
}

/// The figures of a report.
pub struct Tally {
    /// problems found satisfiable
    pub nsat: usize,
    /// problems found unsatisfiable
    pub nunsat: usize,
    /// answer files read
    pub found: usize,
    /// each strategy with the numbers of problems it solved and did not, by name
    pub strategies: Vec<(String, (usize, usize))>,
    /// one row per problem of the benchmark
    pub rows: Vec<ReportRow>,
}

/// No problem has a readable answer file followed by another answer file.
pub open spec fn answers_unique(a: Seq<AnswerEntry>) -> bool {
    forall|i: int, j: int| 0 <= i < j < a.len() && a[i].0 == a[j].0 ==> a[i].1 is None
}

/// Every answer file belongs to a problem of the benchmark.
pub open spec fn answers_known(bench: Seq<(usize, String)>, a: Seq<AnswerEntry>) -> bool {
    forall|i: int| 0 <= i < a.len() ==> a[i].0 < bench.len()
}

/// Whether no problem has a readable answer file followed by another answer file: the test
/// that `tally` requires.
pub fn answers_are_unique(answers: &Vec<AnswerEntry>) -> (b: bool)
    ensures
        b == answers_unique(answers@),
{
    let n = answers.len();
    let mut j: usize = 0;
    while j < n
        invariant
            n == answers@.len(),
            j <= n,
            forall|x: int, y: int| 0 <= x < y < j && answers@[x].0 == answers@[y].0 ==> answers@[x].1 is None,
        decreases n - j,
    {
        let mut i: usize = 0;
        while i < j
            invariant
                n == answers@.len(),
                i <= j < n,
                forall|x: int| 0 <= x < i && answers@[x].0 == answers@[j as int].0 ==> answers@[x].1 is None,
            decreases j - i,
        {
            if answers[i].0 == answers[j].0 && answers[i].1.is_some() {
                return false;
            }
            i = i + 1;
        }
        j = j + 1;
    }
    true
}

/// The last readable answer file for problem `k`.
fn find_answer(answers: &Vec<AnswerEntry>, k: usize) -> (e: Option<usize>)
    ensures
        match answer_of(answers@, k as int) {
            Some(i) => e == Some(i as usize),
            None => e is None,
        },
        e matches Some(i) ==> i < answers@.len(),
{
    let mut n = answers.len();
    assert(answers@.take(n as int) =~= answers@);
    while n > 0
        invariant
            n <= answers@.len(),
            answer_of(answers@, k as int) == answer_of(answers@.take(n as int), k as int),
        decreases n,
    {
        let ghost pre = answers@.take(n as int);
        assert(pre.last() == answers@[n - 1]);
        if answers[n - 1].0 == k && answers[n - 1].1.is_some() {
            return Some(n - 1);
        }
        assert(pre.drop_last() =~= answers@.take(n - 1));
        n = n - 1;
    }
    None
}

/// The figures of the report on the answer files `answers` for the problems `bench`.
pub fn tally(bench: &Vec<(usize, String)>, answers: &Vec<AnswerEntry>) -> (t: Tally)
    requires
        answers_unique(answers@),
        answers_known(bench@, answers@),
    ensures
        t.found == answers@.filter(|e: AnswerEntry| is_found(e)).len(),
        t.nsat == answers@.filter(|e: AnswerEntry| has_verdict(e, true)).len(),
        t.nunsat == answers@.filter(|e: AnswerEntry| has_verdict(e, false)).len(),
        table_view(t.strategies@) == strategy_table(answers@),
        names_increase(table_view(t.strategies@)),
        solved_total(table_view(t.strategies@)) == t.nsat + t.nunsat,
        solved_total(table_view(t.strategies@)) + unsolved_total(table_view(t.strategies@)) == t.found,
        t.rows@ == Seq::new(bench@.len(), |i: int| row_of(bench@, answers@, i)),
        forall|k: int| 0 <= k < t.rows@.len() ==> answer_fits_row(bench@, answers@, #[trigger] t.rows@[k]),
        names_distinct(bench@) ==> solved_rows(bench@, answers@, bench@.len() as int) == t.nsat + t.nunsat,
{
    let ghost a = answers@;
    let ghost pf = |e: AnswerEntry| is_found(e);
    let ghost ps = |e: AnswerEntry| has_verdict(e, true);
    let ghost pu = |e: AnswerEntry| has_verdict(e, false);
    let mut nsat: usize = 0;
    let mut nunsat: usize = 0;
    let mut found: usize = 0;
    let mut strategies: Vec<(String, (usize, usize))> = Vec::new();
    let mut i: usize = 0;
    proof {
        reveal(Seq::filter);
        assert(a.take(0) =~= Seq::<AnswerEntry>::empty());
    }
    while i < answers.len()
        invariant
            a == answers@,
            i <= a.len(),
            found == a.take(i as int).filter(pf).len(),
            nsat == a.take(i as int).filter(ps).len(),
            nunsat == a.take(i as int).filter(pu).len(),
            found <= i,
            nsat <= i,
            nunsat <= i,
            table_view(strategies@) == strategy_table(a.take(i as int)),
            counts_within(table_view(strategies@), i as nat),
            pf == (|e: AnswerEntry| is_found(e)),
            ps == (|e: AnswerEntry| has_verdict(e, true)),
            pu == (|e: AnswerEntry| has_verdict(e, false)),
        decreases a.len() - i,
    {
        proof {
            assert(a.take(i + 1) =~= a.take(i as int).push(a[i as int]));
            assert(a.take(i + 1).drop_last() =~= a.take(i as int));
            a.take(i as int).lemma_filter_push(a[i as int], pf);
            a.take(i as int).lemma_filter_push(a[i as int], ps);
            a.take(i as int).lemma_filter_push(a[i as int], pu);
            a.take(i as int).filter(pf).lemma_filter_len(pf);
        }
        match &answers[i].1 {
            Some(p) => {
                found = found + 1;
                match p.verdict {
                    Some(b) => {
                        if b {
                            nsat = nsat + 1;
                        } else {
                            nunsat = nunsat + 1;
                        }
                    },
                    None => {},
                }
                bump_table(&mut strategies, &p.strategy, p.verdict.is_some(), Ghost(i as nat));
            },
            None => {},
        }
        i = i + 1;
    }
    assert(a.take(a.len() as int) =~= a);
    proof {
        lemma_strategy_table(a);
        lemma_verdict_counts(a);
        if names_distinct(bench@) {
            lemma_solved_rows_distinct(bench@, a, bench@.len() as int);
            lemma_decided_problems(a, bench@.len() as int);
        }
    }
    let mut rows: Vec<ReportRow> = Vec::new();
    let mut nsolved: usize = 0;
    let mut k: usize = 0;
    let n_answers = answers.len();
    while k < bench.len()
        invariant
            a == answers@,
            n_answers == a.len(),
            k <= bench@.len(),
            nsolved == solved_rows(bench@, a, k as int),
            nsolved <= k,
            rows@ == Seq::new(k as nat, |i: int| row_of(bench@, a, i)),
        decreases bench@.len() - k,
    {
        let ghost cell = cell_of(bench@, a, k as int);
        proof {
            lemma_first_named(bench@, bench@[k as int].1@);
        }
        let f = find_named(&bench, bench[k].1.as_str());
        let c = match f {
            Some(f) => match find_answer(answers, f) {
                Some(e) => match &answers[e].1 {
                    Some(p) => match p.verdict {
                        Some(b) => RowCell::Solved { entry: e, strategy: p.strategy.clone(), sat: b },
                        None => RowCell::Unsolved { strategy: p.strategy.clone() },
                    },
                    None => RowCell::Missing,
                },
                None => RowCell::Missing,
            },
            None => RowCell::Missing,
        };
        proof {
            if let Some(fi) = first_named(bench@, bench@[k as int].1@) {
                lemma_answer_of(a, fi);
            }
        }
        assert(c == cell);
        let solved_here = match &c {
            RowCell::Solved { .. } => true,
            _ => false,
        };
        if solved_here {
            nsolved = nsolved + 1;
        }
        let row = ReportRow { num: bench[k].0, key: bench[k].1.clone(), nsolved, cell: c };
        rows.push(row);
        k = k + 1;
        assert(rows@ =~= Seq::new(k as nat, |i: int| row_of(bench@, a, i)));
    }
    assert forall|k: int| 0 <= k < rows@.len() implies answer_fits_row(bench@, a, #[trigger] rows@[k]) by {
        lemma_first_named(bench@, bench@[k].1@);
        if let Some(fi) = first_named(bench@, bench@[k].1@) {
            lemma_answer_of(a, fi);
        }
    }
    Tally { nsat, nunsat, found, strategies, rows }
}

/// The counts of strategy `name` in the table `t`: those of its first entry of that name.
pub open spec fn lookup(t: Seq<(Seq<char>, (usize, usize))>, name: Seq<char>) -> Option<(usize, usize)>
    decreases t.len(),
{
    if t.len() == 0 {
        None
    } else if t[0].0 == name {
        Some(t[0].1)
    } else {
        lookup(t.drop_first(), name)
    }
}

proof fn lemma_lookup_found(t: Seq<(Seq<char>, (usize, usize))>, name: Seq<char>) -> (k: int)
    requires
        lookup(t, name) is Some,
    ensures
        0 <= k < t.len(),
        t[k].0 == name,
        lookup(t, name) == Some(t[k].1),
    decreases t.len(),
{
    if t[0].0 == name {
        0
    } else {
        let k = lemma_lookup_found(t.drop_first(), name);
        k + 1
    }
}

proof fn lemma_lookup_index(t: Seq<(Seq<char>, (usize, usize))>, k: int)
    requires
        names_increase(t),
        0 <= k < t.len(),
    ensures
        lookup(t, t[k].0) == Some(t[k].1),
    decreases k,
{
    if k > 0 {
        lemma_text_less_irreflexive(t[0].0);
        assert(text_less(t[0].0, t[k].0));
        assert(names_increase(t.drop_first())) by {
            assert forall|i: int, j: int| 0 <= i < j < t.drop_first().len() implies text_less(
                t.drop_first()[i].0,
                t.drop_first()[j].0,
            ) by {
                assert(t.drop_first()[i] == t[i + 1] && t.drop_first()[j] == t[j + 1]);
            }
        }
        lemma_lookup_index(t.drop_first(), k - 1);
    }
}

/// Two tables whose names increase and that give every strategy the same counts are equal.
proof fn lemma_tables_equal(t1: Seq<(Seq<char>, (usize, usize))>, t2: Seq<(Seq<char>, (usize, usize))>)
    requires
        names_increase(t1),
        names_increase(t2),
        forall|name: Seq<char>| lookup(t1, name) == lookup(t2, name),
    ensures
        t1 == t2,
    decreases t1.len() + t2.len(),
{
    if t1.len() == 0 || t2.len() == 0 {
        if t1.len() > 0 {
            lemma_lookup_index(t1, 0);
            assert(lookup(t2, t1[0].0) is None);
        } else if t2.len() > 0 {
            lemma_lookup_index(t2, 0);
            assert(lookup(t1, t2[0].0) is None);
        } else {
            assert(t1 =~= t2);
        }
    } else {
        let n1 = t1[0].0;
        let n2 = t2[0].0;
        lemma_lookup_index(t1, 0);
        lemma_lookup_index(t2, 0);
        assert(lookup(t2, n1) == lookup(t1, n1));
        assert(lookup(t1, n2) == lookup(t2, n2));
        let j = lemma_lookup_found(t2, n1);
        let i = lemma_lookup_found(t1, n2);
        lemma_text_less_irreflexive(n1);
        if j > 0 {
            assert(text_less(n2, n1));
            if i > 0 {
                assert(text_less(n1, n2));
                lemma_text_less_transitive(n1, n2, n1);
            }
            assert(false);
        }
        assert(t1[0] == t2[0]);
        let r1 = t1.drop_first();
        let r2 = t2.drop_first();
        assert(names_increase(r1)) by {
            assert forall|x: int, y: int| 0 <= x < y < r1.len() implies text_less(r1[x].0, r1[y].0) by {
                assert(r1[x] == t1[x + 1] && r1[y] == t1[y + 1]);
            }
        }
        assert(names_increase(r2)) by {
            assert forall|x: int, y: int| 0 <= x < y < r2.len() implies text_less(r2[x].0, r2[y].0) by {
                assert(r2[x] == t2[x + 1] && r2[y] == t2[y + 1]);
            }
        }
        assert forall|name: Seq<char>| lookup(r1, name) == lookup(r2, name) by {
            if name == n1 {
                if lookup(r1, name) is Some {
                    let k = lemma_lookup_found(r1, name);
                    assert(r1[k] == t1[k + 1]);
                    assert(text_less(n1, t1[k + 1].0));
                    assert(false);
                }
                if lookup(r2, name) is Some {
                    let k = lemma_lookup_found(r2, name);
                    assert(r2[k] == t2[k + 1]);
                    assert(text_less(n1, t2[k + 1].0));
                    assert(false);
                }
            } else {
                assert(lookup(t1, name) == lookup(r1, name));
                assert(lookup(t2, name) == lookup(r2, name));
            }
        }
        lemma_tables_equal(r1, r2);
        assert(t1 =~= seq![t1[0]] + r1);
        assert(t2 =~= seq![t2[0]] + r2);
    }
}

/// The counts of a strategy after one more problem, solved or not.
pub open spec fn counted(c: Option<(usize, usize)>, solved: bool) -> (usize, usize) {
    match c {
        Some(c) => if solved {
            ((c.0 + 1) as usize, c.1)
        } else {
            (c.0, (c.1 + 1) as usize)
        },
        None => if solved {
            (1usize, 0usize)
        } else {
            (0usize, 1usize)
        },
    }
}

proof fn lemma_lookup_bump(t: Seq<(Seq<char>, (usize, usize))>, name: Seq<char>, solved: bool, n: nat)
    requires
        names_increase(t),
        counts_within(t, n),
        n < usize::MAX,
    ensures
        forall|other: Seq<char>|
            #[trigger] lookup(bump(t, name, solved), other) == if other == name {
                Some(counted(lookup(t, name), solved))
            } else {
                lookup(t, other)
            },
{
    lemma_bump(t, name, solved, n);
    lemma_slot_bound(t, name);
    let i = slot(t, name) as int;
    let b = bump(t, name, solved);
    lemma_text_less_irreflexive(name);
    if i < t.len() && t[i].0 == name {
        lemma_lookup_index(t, i);
        lemma_lookup_index(b, i);
        assert forall|other: Seq<char>| other != name implies lookup(b, other) == lookup(t, other) by {
            if lookup(t, other) is Some {
                let k = lemma_lookup_found(t, other);
                assert(b[k] == t[k]);
                lemma_lookup_index(b, k);
            } else if lookup(b, other) is Some {
                let k = lemma_lookup_found(b, other);
                assert(b[k] == t[k]);
                lemma_lookup_index(t, k);
            }
        }
    } else {
        assert(lookup(t, name) is None) by {
            if lookup(t, name) is Some {
                let k = lemma_lookup_found(t, name);
                if k >= i {
                    lemma_text_less_total(t[i].0, name);
                    if k > i {
                        lemma_text_less_transitive(name, t[i].0, t[k].0);
                    }
                }
            }
        }
        assert(b[i] == (name, counted(None, solved)));
        lemma_lookup_index(b, i);
        assert forall|other: Seq<char>| other != name implies lookup(b, other) == lookup(t, other) by {
            if lookup(t, other) is Some {
                let k = lemma_lookup_found(t, other);
                if k < i {
                    assert(b[k] == t[k]);
                    lemma_lookup_index(b, k);
                } else {
                    assert(b[k + 1] == t[k]);
                    lemma_lookup_index(b, k + 1);
                }
            } else if lookup(b, other) is Some {
                let k = lemma_lookup_found(b, other);
                if k < i {
                    assert(b[k] == t[k]);
                    lemma_lookup_index(t, k);
                } else {
                    assert(k != i);
                    assert(b[k] == t[k - 1]);
                    lemma_lookup_index(t, k - 1);
                }
            }
        }
    }
}

proof fn lemma_bump_commutes(
    t: Seq<(Seq<char>, (usize, usize))>,
    n1: Seq<char>,
    s1: bool,
    n2: Seq<char>,
    s2: bool,
    n: nat,
)
    requires
        names_increase(t),
        counts_within(t, n),
        n + 1 < usize::MAX,
    ensures
        bump(bump(t, n1, s1), n2, s2) == bump(bump(t, n2, s2), n1, s1),
{
    let l = bump(t, n1, s1);
    let r = bump(t, n2, s2);
    lemma_bump(t, n1, s1, n);
    lemma_bump(t, n2, s2, n);
    lemma_bump(l, n2, s2, n + 1);
    lemma_bump(r, n1, s1, n + 1);
    lemma_lookup_bump(t, n1, s1, n);
    lemma_lookup_bump(t, n2, s2, n);
    lemma_lookup_bump(l, n2, s2, n + 1);
    lemma_lookup_bump(r, n1, s1, n + 1);
    assert forall|name: Seq<char>| lookup(bump(l, n2, s2), name) == lookup(bump(r, n1, s1), name) by {
        assert(lookup(bump(l, n2, s2), name) == if name == n2 {
            Some(counted(lookup(l, n2), s2))
        } else {
            lookup(l, name)
        });
        assert(lookup(bump(r, n1, s1), name) == if name == n1 {
            Some(counted(lookup(r, n1), s1))
        } else {
            lookup(r, name)
        });
        assert(lookup(l, name) == if name == n1 {
            Some(counted(lookup(t, n1), s1))
        } else {
            lookup(t, name)
        });
        assert(lookup(r, name) == if name == n2 {
            Some(counted(lookup(t, n2), s2))
        } else {
            lookup(t, name)
        });
    }
    lemma_tables_equal(bump(l, n2, s2), bump(r, n1, s1));
}

proof fn lemma_answer_of_last(a: Seq<AnswerEntry>, k: int)
    ensures
        answer_of(a, k) matches Some(e) ==> forall|j: int| e < j < a.len() ==> !(a[j].0 == k && a[j].1 is Some),
        answer_of(a, k) is None ==> forall|j: int| 0 <= j < a.len() ==> !(a[j].0 == k && a[j].1 is Some),
    decreases a.len(),
{
    if a.len() > 0 && !(a.last().0 == k && a.last().1 is Some) {
        let d = a.drop_last();
        lemma_answer_of_last(d, k);
        lemma_answer_of(a, k);
        assert(answer_of(a, k) == answer_of(d, k));
        if let Some(e) = answer_of(a, k) {
            assert forall|j: int| e < j < a.len() implies !(a[j].0 == k && a[j].1 is Some) by {
                if j < a.len() - 1 {
                    assert(a[j] == d[j]);
                }
            }
        } else {
            assert forall|j: int| 0 <= j < a.len() implies !(a[j].0 == k && a[j].1 is Some) by {
                if j < a.len() - 1 {
                    assert(a[j] == d[j]);
                }
            }
        }
    }
}

/// What a cell of the report shows: the strategy and the verdict of a kept answer, without
/// the position of its file.
pub open spec fn shown_cell(c: RowCell) -> Option<(Seq<char>, Option<bool>)> {
    match c {
        RowCell::Solved { strategy, sat, .. } => Some((strategy@, Some(sat))),
        RowCell::Unsolved { strategy } => Some((strategy@, None)),
        RowCell::Missing => None,
    }
}

/// What a row of the report shows: the problem's number and name, the running number of
/// solved problems, and its cell.
pub open spec fn shown_row(r: ReportRow) -> (usize, Seq<char>, usize, Option<(Seq<char>, Option<bool>)>) {
    (r.num, r.key@, r.nsolved, shown_cell(r.cell))
}

/// What the answer file `e` adds to the strategy table `t`.
pub open spec fn entry_bump(t: Seq<(Seq<char>, (usize, usize))>, e: AnswerEntry) -> Seq<(Seq<char>, (usize, usize))> {
    match e.1 {
        Some(p) => bump(t, p.strategy@, p.verdict is Some),
        None => t,
    }
}

proof fn lemma_table_last(a: Seq<AnswerEntry>)
    requires
        a.len() > 0,
    ensures
        strategy_table(a) == entry_bump(strategy_table(a.drop_last()), a.last()),
{
}

proof fn lemma_table_remove(b: Seq<AnswerEntry>, j: int)
    requires
        0 <= j < b.len(),
        b.len() <= usize::MAX,
    ensures
        strategy_table(b) == entry_bump(strategy_table(b.remove(j)), b[j]),
    decreases b.len(),
{
    lemma_table_last(b);
    if j == b.len() - 1 {
        assert(b.remove(j) =~= b.drop_last());
    } else {
        let d = b.drop_last();
        lemma_table_remove(d, j);
        assert(d[j] == b[j]);
        let r = d.remove(j);
        assert(b.remove(j) =~= r.push(b.last()));
        assert(r.push(b.last()).drop_last() =~= r);
        lemma_table_last(r.push(b.last()));
        let t = strategy_table(r);
        lemma_strategy_table(r);
        if let (Some(px), Some(py)) = (b[j].1, b.last().1) {
            lemma_bump_commutes(t, px.strategy@, px.verdict is Some, py.strategy@, py.verdict is Some, r.len());
        }
    }
}

proof fn lemma_perm_index<A>(a: Seq<A>, b: Seq<A>, i: int) -> (j: int)
    requires
        a.to_multiset() == b.to_multiset(),
        0 <= i < a.len(),
    ensures
        0 <= j < b.len(),
        b[j] == a[i],
{
    broadcast use vstd::seq_lib::group_to_multiset_ensures;

    assert(a.contains(a[i]));
    assert(b.to_multiset().count(a[i]) > 0);
    assert(b.contains(a[i]));
    choose|j: int| 0 <= j < b.len() && b[j] == a[i]
}

proof fn lemma_perm_drop<A>(a: Seq<A>, b: Seq<A>, j: int)
    requires
        a.to_multiset() == b.to_multiset(),
        a.len() > 0,
        0 <= j < b.len(),
        b[j] == a.last(),
    ensures
        a.drop_last().to_multiset() == b.remove(j).to_multiset(),
{
    broadcast use vstd::seq_lib::group_to_multiset_ensures;

    assert(a =~= a.drop_last().push(a.last()));
    assert(a.drop_last().to_multiset() =~= a.to_multiset().remove(a.last()));
}

proof fn lemma_table_perm(a: Seq<AnswerEntry>, b: Seq<AnswerEntry>)
    requires
        a.to_multiset() == b.to_multiset(),
        a.len() <= usize::MAX,
    ensures
        strategy_table(a) == strategy_table(b),
    decreases a.len(),
{
    broadcast use vstd::seq_lib::group_to_multiset_ensures;

    a.to_multiset_ensures();
    b.to_multiset_ensures();
    assert(a.len() == b.len());
    if a.len() > 0 {
        let j = lemma_perm_index(a, b, a.len() - 1);
        lemma_perm_drop(a, b, j);
        lemma_table_perm(a.drop_last(), b.remove(j));
        lemma_table_last(a);
        lemma_table_remove(b, j);
    } else {
        assert(a =~= b);
    }
}

proof fn lemma_filter_perm(a: Seq<AnswerEntry>, b: Seq<AnswerEntry>, pred: spec_fn(AnswerEntry) -> bool)
    requires
        a.to_multiset() == b.to_multiset(),
    ensures
        a.filter(pred).len() == b.filter(pred).len(),
    decreases a.len(),
{
    broadcast use vstd::seq_lib::group_to_multiset_ensures;

    a.to_multiset_ensures();
    b.to_multiset_ensures();
    assert(a.len() == b.len());
    if a.len() > 0 {
        let j = lemma_perm_index(a, b, a.len() - 1);
        lemma_perm_drop(a, b, j);
        lemma_filter_perm(a.drop_last(), b.remove(j), pred);
        let x = a.last();
        assert(a =~= a.drop_last().push(x));
        a.drop_last().lemma_filter_push(x, pred);
        let front = b.take(j);
        let back = b.skip(j + 1);
        let e = Seq::<AnswerEntry>::empty();
        assert(b =~= front + e.push(x) + back);
        assert(b.remove(j) =~= front + back);
        Seq::filter_distributes_over_add(front + e.push(x), back, pred);
        Seq::filter_distributes_over_add(front, e.push(x), pred);
        Seq::filter_distributes_over_add(front, back, pred);
        assert(e.filter(pred) =~= e) by {
            reveal(Seq::filter);
        }
        e.lemma_filter_push(x, pred);
    } else {
        assert(a =~= b);
    }
}

proof fn lemma_answer_of_perm(a: Seq<AnswerEntry>, b: Seq<AnswerEntry>, k: int)
    requires
        answers_unique(a),
        answers_unique(b),
        a.to_multiset() == b.to_multiset(),
    ensures
        (answer_of(b, k) is Some) == (answer_of(a, k) is Some),
        answer_of(b, k) matches Some(eb) ==> answer_of(a, k) matches Some(ea) && b[eb] == a[ea],
{
    lemma_answer_of(a, k);
    lemma_answer_of(b, k);
    lemma_answer_of_last(a, k);
    lemma_answer_of_last(b, k);
    if let Some(ea) = answer_of(a, k) {
        let j = lemma_perm_index(a, b, ea);
        if let Some(eb) = answer_of(b, k) {
            if eb != j {
                if eb < j {
                    assert(b[eb].1 is None);
                } else {
                    assert(b[j].1 is None);
                }
            }
        }
    } else if let Some(eb) = answer_of(b, k) {
        let i = lemma_perm_index(b, a, eb);
        assert(a[i] == b[eb]);
    }
}

proof fn lemma_cell_perm(bench: Seq<(usize, String)>, a: Seq<AnswerEntry>, b: Seq<AnswerEntry>, r: int)
    requires
        answers_unique(a),
        answers_unique(b),
        a.to_multiset() == b.to_multiset(),
    ensures
        shown_cell(cell_of(bench, b, r)) == shown_cell(cell_of(bench, a, r)),
        (cell_of(bench, b, r) is Solved) == (cell_of(bench, a, r) is Solved),
{
    if let Some(f) = first_named(bench, bench[r].1@) {
        lemma_answer_of_perm(a, b, f);
    }
}

proof fn lemma_solved_rows_perm(bench: Seq<(usize, String)>, a: Seq<AnswerEntry>, b: Seq<AnswerEntry>, n: int)
    requires
        answers_unique(a),
        answers_unique(b),
        a.to_multiset() == b.to_multiset(),
    ensures
        solved_rows(bench, b, n) == solved_rows(bench, a, n),
    decreases n,
{
    if n > 0 {
        lemma_solved_rows_perm(bench, a, b, n - 1);
        lemma_cell_perm(bench, a, b, n - 1);
    }
}

/// The report does not depend on the order of the answer files: two lists of answer files
/// that hold the same files, in any order, give the same counts of answers found,
/// satisfiable and unsatisfiable, the same strategy table, and rows that show the same;
/// only the position of the file behind a solved cell moves with the file.
pub proof fn law_answer_order(bench: Seq<(usize, String)>, a: Seq<AnswerEntry>, b: Seq<AnswerEntry>)
    requires
        answers_unique(a),
        answers_unique(b),
        a.to_multiset() == b.to_multiset(),
        a.len() <= usize::MAX,
    ensures
        b.filter(|e: AnswerEntry| is_found(e)).len() == a.filter(|e: AnswerEntry| is_found(e)).len(),
        b.filter(|e: AnswerEntry| has_verdict(e, true)).len() == a.filter(|e: AnswerEntry| has_verdict(e, true)).len(),
        b.filter(|e: AnswerEntry| has_verdict(e, false)).len() == a.filter(|e: AnswerEntry| has_verdict(e, false)).len(),
        strategy_table(b) == strategy_table(a),
        forall|k: int|
            0 <= k < bench.len() ==> shown_row(#[trigger] row_of(bench, b, k)) == shown_row(row_of(bench, a, k)),
{
    lemma_filter_perm(a, b, |e: AnswerEntry| is_found(e));
    lemma_filter_perm(a, b, |e: AnswerEntry| has_verdict(e, true));
    lemma_filter_perm(a, b, |e: AnswerEntry| has_verdict(e, false));
    lemma_table_perm(a, b);
    assert forall|k: int| 0 <= k < bench.len() implies shown_row(#[trigger] row_of(bench, b, k)) == shown_row(
        row_of(bench, a, k),
    ) by {
        lemma_cell_perm(bench, a, b, k);
        lemma_solved_rows_perm(bench, a, b, k + 1);
    }
}

/// A file of the directory of answers: its name, and what it says when it could be read as
/// an answer.
pub type ListedFile = (String, Option<ParsedAnswer>);

/// The answer files of the listing `l`: the files that answer a problem of `bench`, in the
/// order listed.
pub open spec fn listed_answers(bench: Seq<(usize, String)>, l: Seq<ListedFile>) -> Seq<AnswerEntry>
    decreases l.len(),
{
    if l.len() == 0 {
        seq![]
    } else {
        let rest = listed_answers(bench, l.drop_last());
        match answered_problem(bench, l.last().0@) {
            Some(k) => rest.push((k as usize, l.last().1)),
            None => rest,
        }
    }
}

/// The answer files of a directory listed as `listing`: each file that answers a problem of
/// `bench`, with that problem, in the order listed.
pub fn answers_from_listing(bench: &Vec<(usize, String)>, listing: Vec<ListedFile>) -> (a: Vec<AnswerEntry>)
    ensures
        a@ == listed_answers(bench@, listing@),
{
    let ghost all = listing@;
    let mut rest = listing;
    let mut a: Vec<AnswerEntry> = Vec::new();
    let ghost mut i: int = 0;
    assert(all.take(0) =~= Seq::<ListedFile>::empty());
    assert(all.skip(0) =~= all);
    while rest.len() > 0
        invariant
            0 <= i,
            all.len() == i + rest@.len(),
            rest@ == all.skip(i),
            a@ == listed_answers(bench@, all.take(i)),
        decreases rest@.len(),
    {
        let ghost before = all.take(i);
        assert(rest@[0] == all[i]);
        let (name, parsed) = rest.remove(0);
        proof {
            assert(all.take(i + 1).drop_last() =~= before);
            assert(all.take(i + 1).last() == all[i]);
            assert(rest@ =~= all.skip(i + 1));
        }
        match answer_key(bench, name.as_str()) {
            Some(k) => {
                a.push((k, parsed));
            },
            None => {},
        }
        proof {
            i = i + 1;
        }
    }
    assert(all.take(i) =~= all);
    a
}

proof fn lemma_listed_add(bench: Seq<(usize, String)>, p: Seq<ListedFile>, q: Seq<ListedFile>)
    ensures
        listed_answers(bench, p + q) == listed_answers(bench, p) + listed_answers(bench, q),
    decreases q.len(),
{
    if q.len() == 0 {
        assert(p + q =~= p);
        assert(listed_answers(bench, p) + listed_answers(bench, q) =~= listed_answers(bench, p));
    } else {
        assert((p + q).drop_last() =~= p + q.drop_last());
        assert((p + q).last() == q.last());
        lemma_listed_add(bench, p, q.drop_last());
        let u = listed_answers(bench, p);
        let v = listed_answers(bench, q.drop_last());
        match answered_problem(bench, q.last().0@) {
            Some(k) => {
                assert((u + v).push((k as usize, q.last().1)) =~= u + v.push((k as usize, q.last().1)));
            },
            None => {},
        }
    }
}

proof fn lemma_listed_len(bench: Seq<(usize, String)>, l: Seq<ListedFile>)
    ensures
        listed_answers(bench, l).len() <= l.len(),
    decreases l.len(),
{
    if l.len() > 0 {
        lemma_listed_len(bench, l.drop_last());
    }
}

proof fn lemma_listed_none(bench: Seq<(usize, String)>, l: Seq<ListedFile>)
    requires
        forall|i: int| 0 <= i < l.len() ==> answered_problem(bench, #[trigger] l[i].0@) is None,
    ensures
        listed_answers(bench, l) == Seq::<AnswerEntry>::empty(),
    decreases l.len(),
{
    if l.len() > 0 {
        assert(answered_problem(bench, l[l.len() - 1].0@) is None);
        lemma_listed_none(bench, l.drop_last());
    }
}

proof fn lemma_listed_perm(bench: Seq<(usize, String)>, l1: Seq<ListedFile>, l2: Seq<ListedFile>)
    requires
        l1.to_multiset() == l2.to_multiset(),
    ensures
        listed_answers(bench, l1).to_multiset() == listed_answers(bench, l2).to_multiset(),
    decreases l1.len(),
{
    l1.to_multiset_ensures();
    l2.to_multiset_ensures();
    if l1.len() > 0 {
        let x = l1.last();
        let j = lemma_perm_index(l1, l2, l1.len() - 1);
        lemma_perm_drop(l1, l2, j);
        lemma_listed_perm(bench, l1.drop_last(), l2.remove(j));
        let e = Seq::<ListedFile>::empty();
        let front = l2.take(j);
        let back = l2.skip(j + 1);
        assert(l1 =~= l1.drop_last() + e.push(x));
        assert(l2 =~= front + e.push(x) + back);
        assert(l2.remove(j) =~= front + back);
        lemma_listed_add(bench, l1.drop_last(), e.push(x));
        lemma_listed_add(bench, front + e.push(x), back);
        lemma_listed_add(bench, front, e.push(x));
        lemma_listed_add(bench, front, back);
        let lf = listed_answers(bench, front);
        let lx = listed_answers(bench, e.push(x));
        let lb = listed_answers(bench, back);
        let ld = listed_answers(bench, l1.drop_last());
        vstd::seq_lib::lemma_multiset_commutative(ld, lx);
        vstd::seq_lib::lemma_multiset_commutative(lf + lx, lb);
        vstd::seq_lib::lemma_multiset_commutative(lf, lx);
        vstd::seq_lib::lemma_multiset_commutative(lf, lb);
        assert(listed_answers(bench, l2).to_multiset() =~= lf.to_multiset().add(lb.to_multiset()).add(
            lx.to_multiset(),
        ));
    } else {
        assert(l1 =~= l2);
    }
}

/// The report does not depend on how the directory lists its files: a listing that holds the
/// same files in another order, with files added that answer no problem of the benchmark,
/// gives the same answer files, and so the same counts, strategy table and rows.
pub proof fn law_listing_order(
    bench: Seq<(usize, String)>,
    l1: Seq<ListedFile>,
    l2: Seq<ListedFile>,
    extra: Seq<ListedFile>,
)
    requires
        l1.to_multiset() == l2.to_multiset(),
        forall|i: int| 0 <= i < extra.len() ==> answered_problem(bench, #[trigger] extra[i].0@) is None,
        answers_unique(listed_answers(bench, l1)),
        answers_unique(listed_answers(bench, l2 + extra)),
        l1.len() <= usize::MAX,
    ensures
        ({
            let a = listed_answers(bench, l1);
            let b = listed_answers(bench, l2 + extra);
            &&& b.to_multiset() == a.to_multiset()
            &&& b.filter(|e: AnswerEntry| is_found(e)).len() == a.filter(|e: AnswerEntry| is_found(e)).len()
            &&& b.filter(|e: AnswerEntry| has_verdict(e, true)).len() == a.filter(
                |e: AnswerEntry| has_verdict(e, true),
            ).len()
            &&& b.filter(|e: AnswerEntry| has_verdict(e, false)).len() == a.filter(
                |e: AnswerEntry| has_verdict(e, false),
            ).len()
            &&& strategy_table(b) == strategy_table(a)
            &&& forall|k: int|
                0 <= k < bench.len() ==> shown_row(#[trigger] row_of(bench, b, k)) == shown_row(row_of(bench, a, k))
        }),
{
    lemma_listed_add(bench, l2, extra);
    lemma_listed_none(bench, extra);
    assert(listed_answers(bench, l2) + Seq::<AnswerEntry>::empty() =~= listed_answers(bench, l2));
    lemma_listed_perm(bench, l1, l2);
    lemma_listed_len(bench, l1);
    law_answer_order(bench, listed_answers(bench, l1), listed_answers(bench, l2 + extra));
}

/// Every row shows the answer file behind it. A solved cell names a readable answer file of
/// the first problem of the row's name and shows that file's verdict and strategy; an
/// unsolved cell shows the strategy of such a file that gives no verdict; a missing cell
/// means that no such file could be read.
pub proof fn law_cells_show_their_answer(bench: Seq<(usize, String)>, a: Seq<AnswerEntry>, i: int)
    requires
        0 <= i < bench.len(),
        a.len() <= usize::MAX,
    ensures
        match cell_of(bench, a, i) {
            RowCell::Solved { entry, strategy, sat } => {
                &&& entry < a.len()
                &&& a[entry as int].1 matches Some(p) && p.strategy@ == strategy@ && p.verdict == Some(sat)
                &&& bench[a[entry as int].0 as int].1@ == bench[i].1@
            },
            RowCell::Unsolved { strategy } => exists|e: int|
                0 <= e < a.len() && bench[a[e].0 as int].1@ == bench[i].1@ && (#[trigger] a[e].1 matches Some(p)
                    && p.strategy@ == strategy@ && p.verdict is None),
            RowCell::Missing => forall|e: int|
                0 <= e < a.len() && first_named(bench, bench[i].1@) == Some(a[e].0 as int) ==> (
                #[trigger] a[e].1) is None,
        },
{
    lemma_first_named(bench, bench[i].1@);
    if let Some(f) = first_named(bench, bench[i].1@) {
        lemma_answer_of(a, f);
        lemma_answer_of_last(a, f);
        if let Some(e) = answer_of(a, f) {
            assert(a[e].1 is Some);
        }
    }
}

/// A file answers a problem exactly when its name is `.ans_` followed by the problem's name,
/// and then it answers the first problem of that name.
pub proof fn law_answer_file_names(bench: Seq<(usize, String)>, fname: Seq<char>)
    ensures
        answered_problem(bench, fname) matches Some(k) ==> 0 <= k < bench.len() && fname == answer_prefix()
            + bench[k].1@ && forall|j: int| 0 <= j < k ==> bench[j].1@ != bench[k].1@,
        (exists|k: int| 0 <= k < bench.len() && fname == answer_prefix() + #[trigger] bench[k].1@) ==> answered_problem(
            bench,
            fname,
        ) is Some,
{
    reveal_strlit(".ans_");
    assert(answer_prefix().len() == 5);
    lemma_first_named(bench, fname.skip(5));
    lemma_first_named_is_first(bench, fname.skip(5));
    if let Some(k) = answered_problem(bench, fname) {
        assert(fname =~= fname.take(5) + fname.skip(5));
    }
    if exists|k: int| 0 <= k < bench.len() && fname == answer_prefix() + #[trigger] bench[k].1@ {
        let k = choose|k: int| 0 <= k < bench.len() && fname == answer_prefix() + #[trigger] bench[k].1@;
        assert(fname.take(5) =~= answer_prefix());
        assert(fname.skip(5) =~= bench[k].1@);
        lemma_first_named_found(bench, bench[k].1@, k);
    }
}

proof fn lemma_first_named_is_first(bench: Seq<(usize, String)>, name: Seq<char>)
    ensures
        first_named(bench, name) matches Some(k) ==> forall|j: int| 0 <= j < k ==> bench[j].1@ != name,
    decreases bench.len(),
{
    if bench.len() > 0 && bench[0].1@ != name {
        lemma_first_named_is_first(bench.drop_first(), name);
        lemma_first_named(bench, name);
        if let Some(k) = first_named(bench, name) {
            assert forall|j: int| 0 <= j < k implies bench[j].1@ != name by {
                if j > 0 {
                    assert(bench[j] == bench.drop_first()[j - 1]);
                }
            }
        }
    }
}

proof fn lemma_first_named_found(bench: Seq<(usize, String)>, name: Seq<char>, k: int)
    requires
        0 <= k < bench.len(),
        bench[k].1@ == name,
    ensures
        first_named(bench, name) is Some,
    decreases bench.len(),
{
    if bench[0].1@ != name {
        assert(bench.drop_first()[k - 1] == bench[k]);
        lemma_first_named_found(bench.drop_first(), name, k - 1);
    }
}

} // verus!
