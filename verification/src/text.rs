//! Text utilities over the character view of strings.
use vstd::prelude::*;
use vstd::std_specs::iter::IteratorSpec;

verus! {

/// The characters of `s`, in order.
pub fn chars_of(s: &str) -> (out: Vec<char>)
    ensures
        out@ == s@,
{
    let mut out: Vec<char> = Vec::new();
    let it = s.chars();
    for c in iter: it
        invariant
            out@ == iter.seq().take(iter.index() as int),
    {
        out.push(c);
        assert(out@ == iter.seq().take(iter.index() as int + 1));
    }
    out
}

/// `needle` occurs in `hay` starting at position `i`.
pub open spec fn occurs_at(hay: Seq<char>, needle: Seq<char>, i: int) -> bool {
    &&& 0 <= i
    &&& i + needle.len() <= hay.len()
    &&& hay.subrange(i, i + needle.len()) == needle
}

/// `needle` is a contiguous part of `hay` (what `str::contains` answers for a string pattern).
pub open spec fn has_infix(hay: Seq<char>, needle: Seq<char>) -> bool {
    exists|i: int| occurs_at(hay, needle, i)
}

/// Whether `needle` occurs in `hay`.
pub fn contains(hay: &Vec<char>, needle: &str) -> (found: bool)
    ensures
        found == has_infix(hay@, needle@),
{
    let pat = chars_of(needle);
    let n = hay.len();
    let m = pat.len();
    if m > n {
        assert forall|i: int| !occurs_at(hay@, needle@, i) by {}
        return false;
    }
    let mut i: usize = 0;
    while i <= n - m
        invariant
            m <= n,
            n == hay@.len(),
            m == pat@.len(),
            pat@ == needle@,
            i <= n - m + 1,
            forall|k: int| 0 <= k < i ==> !occurs_at(hay@, needle@, k),
        decreases n - m + 1 - i,
    {
        let mut j: usize = 0;
        let mut same = true;
        while j < m
            invariant
                m <= n,
                i <= n - m,
                n == hay@.len(),
                m == pat@.len(),
                j <= m,
                same == (forall|k: int| 0 <= k < j ==> hay@[i + k] == pat@[k]),
            decreases m - j,
        {
            if hay[i + j] != pat[j] {
                same = false;
            }
            j = j + 1;
        }
        if same {
            assert(hay@.subrange(i as int, i + m) =~= needle@);
            assert(occurs_at(hay@, needle@, i as int));
            return true;
        }
        assert(!occurs_at(hay@, needle@, i as int)) by {
            let k = choose|k: int| 0 <= k < j && hay@[i + k] != pat@[k];
            assert(hay@.subrange(i as int, i + m)[k] == hay@[i + k]);
        }
        i = i + 1;
    }
    assert forall|k: int| !occurs_at(hay@, needle@, k) by {
        if occurs_at(hay@, needle@, k) {
            assert(k < i);
        }
    }
    false
}

/// Whether two strings hold the same characters.
pub fn same_text(a: &str, b: &str) -> (eq: bool)
    ensures
        eq == (a@ == b@),
{
    a.to_owned() == b.to_owned()
}

/// The character of decimal digit `d`.
pub open spec fn digit_char(d: nat) -> char {
    (('0' as u32) + d) as char
}

/// The decimal numeral of `n`, without leading zeros (what `usize`'s `Display` writes).
pub open spec fn decimal(n: nat) -> Seq<char>
    decreases n,
{
    if n < 10 {
        seq![digit_char(n)]
    } else {
        decimal(n / 10).push(digit_char(n % 10))
    }
}

fn digit_text(d: usize) -> (t: &'static str)
    requires
        d < 10,
    ensures
        t@ == seq![digit_char(d as nat)],
{
    proof {
        reveal_strlit("0");
        reveal_strlit("1");
        reveal_strlit("2");
        reveal_strlit("3");
        reveal_strlit("4");
        reveal_strlit("5");
        reveal_strlit("6");
        reveal_strlit("7");
        reveal_strlit("8");
        reveal_strlit("9");
    }
    if d == 0 {
        "0"
    } else if d == 1 {
        "1"
    } else if d == 2 {
        "2"
    } else if d == 3 {
        "3"
    } else if d == 4 {
        "4"
    } else if d == 5 {
        "5"
    } else if d == 6 {
        "6"
    } else if d == 7 {
        "7"
    } else if d == 8 {
        "8"
    } else {
        "9"
    }
}

/// The decimal numeral of `n`.
pub fn decimal_string(n: usize) -> (out: String)
    ensures
        out@ == decimal(n as nat),
    decreases n,
{
    if n < 10 {
        String::from_str(digit_text(n))
    } else {
        let mut out = decimal_string(n / 10);
        out.append(digit_text(n % 10));
        out
    }
}

/// `c` has the Unicode `White_Space` property (what `char::is_whitespace` answers).
pub open spec fn is_space(c: char) -> bool {
    let u = c as u32;
    ||| 0x09 <= u <= 0x0d
    ||| u == 0x20
    ||| u == 0x85
    ||| u == 0xa0
    ||| u == 0x1680
    ||| 0x2000 <= u <= 0x200a
    ||| u == 0x2028
    ||| u == 0x2029
    ||| u == 0x202f
    ||| u == 0x205f
    ||| u == 0x3000
}

/// Whether `c` is white space.
pub fn is_space_char(c: char) -> (b: bool)
    ensures
        b == is_space(c),
{
    let u = c as u32;
    (0x09 <= u && u <= 0x0d) || u == 0x20 || u == 0x85 || u == 0xa0 || u == 0x1680 || (0x2000
        <= u && u <= 0x200a) || u == 0x2028 || u == 0x2029 || u == 0x202f || u == 0x205f || u
        == 0x3000
}

/// The words of `s` after the partial word `word`: the maximal runs of characters that are
/// not white space (what `str::split_whitespace` yields).
pub open spec fn words_from(s: Seq<char>, word: Seq<char>) -> Seq<Seq<char>>
    decreases s.len(),
{
    if s.len() == 0 {
        if word.len() > 0 { seq![word] } else { seq![] }
    } else if is_space(s[0]) {
        (if word.len() > 0 { seq![word] } else { seq![] }) + words_from(s.drop_first(), seq![])
    } else {
        words_from(s.drop_first(), word.push(s[0]))
    }
}

proof fn lemma_words_from_clean(s: Seq<char>, word: Seq<char>)
    requires
        forall|i: int| 0 <= i < word.len() ==> !is_space(#[trigger] word[i]),
    ensures
        forall|k: int| 0 <= k < words_from(s, word).len() ==> {
            &&& (#[trigger] words_from(s, word)[k]).len() > 0
            &&& forall|i: int| 0 <= i < words_from(s, word)[k].len() ==> !is_space(#[trigger] words_from(s, word)[k][i])
        },
    decreases s.len(),
{
    let ws = words_from(s, word);
    if s.len() == 0 {
        assert forall|k: int| 0 <= k < ws.len() implies (#[trigger] ws[k]).len() > 0 && forall|i: int|
            0 <= i < ws[k].len() ==> !is_space(#[trigger] ws[k][i]) by {
            assert(ws[k] == word);
        }
    } else if is_space(s[0]) {
        let first: Seq<Seq<char>> = if word.len() > 0 { seq![word] } else { seq![] };
        let rest = words_from(s.drop_first(), seq![]);
        lemma_words_from_clean(s.drop_first(), seq![]);
        assert(ws == first + rest);
        assert forall|k: int| 0 <= k < ws.len() implies (#[trigger] ws[k]).len() > 0 && forall|i: int|
            0 <= i < ws[k].len() ==> !is_space(#[trigger] ws[k][i]) by {
            if k < first.len() {
                assert(ws[k] == word);
            } else {
                assert(ws[k] == rest[k - first.len()]);
            }
        }
    } else {
        let w2 = word.push(s[0]);
        assert forall|i: int| 0 <= i < w2.len() implies !is_space(#[trigger] w2[i]) by {
            if i < word.len() {
                assert(w2[i] == word[i]);
            }
        }
        lemma_words_from_clean(s.drop_first(), w2);
        let rest = words_from(s.drop_first(), w2);
        assert(ws == rest);
        assert forall|k: int| 0 <= k < ws.len() implies (#[trigger] ws[k]).len() > 0 && forall|i: int|
            0 <= i < ws[k].len() ==> !is_space(#[trigger] ws[k][i]) by {
            assert(ws[k] == rest[k]);
        }
    }
}

/// Every word of `s` is a nonempty run of characters that are not white space.
pub proof fn lemma_words_clean(s: Seq<char>)
    ensures
        forall|k: int| 0 <= k < words(s).len() ==> {
            &&& (#[trigger] words(s)[k]).len() > 0
            &&& forall|i: int| 0 <= i < words(s)[k].len() ==> !is_space(#[trigger] words(s)[k][i])
        },
{
    lemma_words_from_clean(s, seq![]);
}

/// The white-space separated words of `s`.
pub open spec fn words(s: Seq<char>) -> Seq<Seq<char>> {
    words_from(s, seq![])
}

/// The views of a vector of strings.
pub open spec fn texts(v: Seq<String>) -> Seq<Seq<char>> {
    v.map_values(|t: String| t@)
}

/// The white-space separated words of `s`.
pub fn split_words(s: &str) -> (out: Vec<String>)
    ensures
        texts(out@) == words(s@),
{
    let cs = chars_of(s);
    let n = cs.len();
    let mut out: Vec<String> = Vec::new();
    let mut start: usize = 0;
    let mut i: usize = 0;
    assert(cs@.skip(0) == cs@);
    assert(cs@.subrange(0, 0) == Seq::<char>::empty());
    assert(texts(out@) + words(s@) =~= words(s@));
    while i < n
        invariant
            n == cs@.len(),
            cs@ == s@,
            start <= i <= n,
            words(s@) == texts(out@) + words_from(cs@.skip(i as int), cs@.subrange(start as int, i as int)),
        decreases n - i,
    {
        let c = cs[i];
        assert(cs@.skip(i as int)[0] == c);
        assert(cs@.skip(i as int).drop_first() == cs@.skip(i + 1));
        if is_space_char(c) {
            if start < i {
                let w = String::from_str(s.substring_char(start, i));
                let ghost before = out@;
                out.push(w);
                assert(texts(out@) == texts(before) + seq![cs@.subrange(start as int, i as int)]);
            } else {
                assert(cs@.subrange(start as int, i as int).len() == 0);
            }
            assert(cs@.subrange(i + 1, i + 1) == Seq::<char>::empty());
            start = i + 1;
        } else {
            assert(cs@.subrange(start as int, i as int).push(c) == cs@.subrange(start as int, i + 1));
        }
        i = i + 1;
    }
    if start < n {
        let w = String::from_str(s.substring_char(start, n));
        let ghost before = out@;
        out.push(w);
        assert(texts(out@) == texts(before) + seq![cs@.subrange(start as int, n as int)]);
    }
    assert(texts(out@) =~= words(s@));
    out
}

/// `path` starts at the root.
pub open spec fn is_absolute(path: Seq<char>) -> bool {
    path.len() > 0 && path[0] == '/'
}

/// `dir` extended by `name` (what `Path::join` gives on Unix): an absolute `name` replaces
/// `dir`; otherwise a separator is put between them unless `dir` is empty or already ends
/// with one.
pub open spec fn joined(dir: Seq<char>, name: Seq<char>) -> Seq<char> {
    if is_absolute(name) {
        name
    } else if dir.len() > 0 && dir.last() != '/' {
        dir + seq!['/'] + name
    } else {
        dir + name
    }
}

/// `dir` extended by `name`.
pub fn join_path(dir: &str, name: &str) -> (out: String)
    ensures
        out@ == joined(dir@, name@),
{
    let d = chars_of(dir);
    let n = chars_of(name);
    proof {
        reveal_strlit("/");
    }
    if n.len() > 0 && n[0] == '/' {
        String::from_str(name)
    } else if d.len() > 0 && d[d.len() - 1] != '/' {
        let mut out = String::from_str(dir);
        out.append("/");
        out.append(name);
        out
    } else {
        let mut out = String::from_str(dir);
        out.append(name);
        out
    }
}

/// An option word with one leading backslash removed, as solver options are written
/// escaped on the command line.
pub open spec fn unescaped(word: Seq<char>) -> Seq<char> {
    if word.len() > 0 && word[0] == '\\' {
        word.drop_first()
    } else {
        word
    }
}

/// `word` without one leading backslash.
pub fn unescape(word: &str) -> (out: String)
    ensures
        out@ == unescaped(word@),
{
    let n = word.unicode_len();
    if n > 0 && word.get_char(0) == '\\' {
        String::from_str(word.substring_char(1, n))
    } else {
        String::from_str(word)
    }
}

} // verus!
