//! Which texts `str::parse::<f64>` accepts.
use vstd::prelude::*;
use crate::text::chars_of;

verus! {

/// `c` is a decimal digit.
pub open spec fn is_digit(c: char) -> bool {
    '0' <= c && c <= '9'
}

/// Every character of `s` is a decimal digit.
pub open spec fn all_digits(s: Seq<char>) -> bool {
    forall|i: int| 0 <= i < s.len() ==> is_digit(#[trigger] s[i])
}

/// The position of the first `c` or `d` in `s`, or its length when there is none.
pub open spec fn first_of(s: Seq<char>, c: char, d: char) -> nat
    decreases s.len(),
{
    if s.len() == 0 {
        0
    } else if s[0] == c || s[0] == d {
        0
    } else {
        1 + first_of(s.drop_first(), c, d)
    }
}

proof fn lemma_first_of(s: Seq<char>, c: char, d: char)
    ensures
        first_of(s, c, d) <= s.len(),
        first_of(s, c, d) < s.len() ==> (s[first_of(s, c, d) as int] == c || s[first_of(s, c, d) as int] == d),
    decreases s.len(),
{
    if s.len() > 0 && !(s[0] == c || s[0] == d) {
        lemma_first_of(s.drop_first(), c, d);
    }
}

/// `c` is a sign.
pub open spec fn is_sign(c: char) -> bool {
    c == '+' || c == '-'
}

/// `s` without one leading sign.
pub open spec fn unsigned(s: Seq<char>) -> Seq<char> {
    if s.len() > 0 && is_sign(s[0]) {
        s.drop_first()
    } else {
        s
    }
}

/// `Digit+ | Digit+ '.' Digit* | Digit* '.' Digit+`
pub open spec fn is_mantissa(s: Seq<char>) -> bool {
    let p = first_of(s, '.', '.') as int;
    if p == s.len() {
        s.len() > 0 && all_digits(s)
    } else {
        &&& all_digits(s.take(p))
        &&& all_digits(s.skip(p + 1))
        &&& s.len() > 1
    }
}

/// `('e' | 'E') Sign? Digit+`
pub open spec fn is_exponent(s: Seq<char>) -> bool {
    s.len() > 0 && (s[0] == 'e' || s[0] == 'E') && unsigned(s.drop_first()).len() > 0 && all_digits(
        unsigned(s.drop_first()),
    )
}

/// `Number ::= Mantissa Exp?`
pub open spec fn is_number(s: Seq<char>) -> bool {
    let e = first_of(s, 'e', 'E') as int;
    is_mantissa(s.take(e)) && (e == s.len() || is_exponent(s.skip(e)))
}

/// `c` in lower case, for ASCII letters.
pub open spec fn ascii_lower(c: char) -> char {
    if 'A' <= c && c <= 'Z' {
        ((c as u32) + 32) as char
    } else {
        c
    }
}

/// `s` spells `word` (given in lower case) in any case.
pub open spec fn spells(s: Seq<char>, word: Seq<char>) -> bool {
    s.len() == word.len() && forall|i: int| 0 <= i < s.len() ==> ascii_lower(#[trigger] s[i]) == word[i]
}

/// `s` is accepted by `str::parse::<f64>`, whose documented grammar is
/// `Sign? ('inf' | 'infinity' | 'nan' | Number)`, the words in any case.
pub open spec fn is_float_text(s: Seq<char>) -> bool {
    let u = unsigned(s);
    spells(u, "inf"@) || spells(u, "infinity"@) || spells(u, "nan"@) || is_number(u)
}

fn digits_only(s: &Vec<char>, from: usize, to: usize) -> (b: bool)
    requires
        from <= to <= s@.len(),
    ensures
        b == all_digits(s@.subrange(from as int, to as int)),
{
    let mut i = from;
    while i < to
        invariant
            from <= i <= to <= s@.len(),
            forall|k: int| from <= k < i ==> is_digit(s@[k]),
        decreases to - i,
    {
        if !('0' <= s[i] && s[i] <= '9') {
            assert(s@.subrange(from as int, to as int)[i - from] == s@[i as int]);
            return false;
        }
        i = i + 1;
    }
    assert forall|k: int| 0 <= k < to - from implies is_digit(#[trigger] s@.subrange(from as int, to as int)[k]) by {
        assert(s@.subrange(from as int, to as int)[k] == s@[from + k]);
    }
    true
}

fn find_first(s: &Vec<char>, from: usize, to: usize, c: char, d: char) -> (p: usize)
    requires
        from <= to <= s@.len(),
    ensures
        from <= p <= to,
        p - from == first_of(s@.subrange(from as int, to as int), c, d),
{
    let mut i = from;
    assert(s@.subrange(from as int, to as int) =~= s@.subrange(from as int, to as int).skip(0));
    while i < to
        invariant
            from <= i <= to <= s@.len(),
            first_of(s@.subrange(from as int, to as int), c, d) == (i - from) + first_of(
                s@.subrange(i as int, to as int),
                c,
                d,
            ),
        decreases to - i,
    {
        if s[i] == c || s[i] == d {
            return i;
        }
        assert(s@.subrange(i as int, to as int).drop_first() =~= s@.subrange(i + 1, to as int));
        i = i + 1;
    }
    to
}

fn spells_word(s: &Vec<char>, from: usize, word: &str) -> (b: bool)
    requires
        from <= s@.len(),
        forall|i: int| 0 <= i < word@.len() ==> 'a' <= #[trigger] word@[i] <= 'z',
    ensures
        b == spells(s@.skip(from as int), word@),
{
    let w = chars_of(word);
    if s.len() - from != w.len() {
        return false;
    }
    let mut i: usize = 0;
    while i < w.len()
        invariant
            w@ == word@,
            from + w@.len() == s@.len(),
            s@.len() <= usize::MAX,
            i <= w@.len(),
            forall|k: int| 0 <= k < i ==> ascii_lower(s@[from + k]) == w@[k],
        decreases w@.len() - i,
    {
        let c = s[from + i];
        let lower = if 'A' <= c && c <= 'Z' {
            ((c as u32) + 32) as u8 as char
        } else {
            c
        };
        assert(lower == ascii_lower(c)) by {
            if 'A' <= c && c <= 'Z' {
                assert(((c as u32) + 32) < 256);
            }
        }
        if lower != w[i] {
            assert(s@.skip(from as int)[i as int] == s@[from + i]);
            return false;
        }
        i = i + 1;
    }
    assert forall|k: int| 0 <= k < s@.skip(from as int).len() implies ascii_lower(
        #[trigger] s@.skip(from as int)[k],
    ) == word@[k] by {
        assert(s@.skip(from as int)[k] == s@[from + k]);
    }
    true
}

/// Whether `str::parse::<f64>` accepts `text`.
pub fn parses_as_float(text: &str) -> (b: bool)
    ensures
        b == is_float_text(text@),
{
    let s = chars_of(text);
    let n = s.len();
    let start: usize = if n > 0 && (s[0] == '+' || s[0] == '-') {
        1
    } else {
        0
    };
    let ghost u = unsigned(s@);
    assert(u =~= s@.skip(start as int));
    assert(u =~= s@.subrange(start as int, n as int));
    proof {
        reveal_strlit("inf");
        reveal_strlit("infinity");
        reveal_strlit("nan");
    }
    if spells_word(&s, start, "inf") || spells_word(&s, start, "infinity") || spells_word(&s, start, "nan") {
        return true;
    }
    let e = find_first(&s, start, n, 'e', 'E');
    let ghost m = s@.subrange(start as int, e as int);
    assert(u.take(e - start) =~= m);
    let p = find_first(&s, start, e, '.', '.');
    let mantissa = if p == e {
        e > start && digits_only(&s, start, e)
    } else {
        assert(m.take(p - start) =~= s@.subrange(start as int, p as int));
        assert(m.skip(p - start + 1) =~= s@.subrange(p + 1, e as int));
        digits_only(&s, start, p) && digits_only(&s, p + 1, e) && e - start > 1
    };
    assert(mantissa == is_mantissa(m));
    if !mantissa {
        return false;
    }
    if e == n {
        assert(e - start == u.len());
        return true;
    }
    let ghost x = s@.subrange(e as int, n as int);
    assert(u.skip(e - start) =~= x);
    proof {
        lemma_first_of(s@.subrange(start as int, n as int), 'e', 'E');
        assert(x[0] == s@[e as int]);
    }
    let mut d = e + 1;
    if d < n && (s[d] == '+' || s[d] == '-') {
        d = d + 1;
    }
    assert(unsigned(x.drop_first()) =~= s@.subrange(d as int, n as int));
    d < n && digits_only(&s, d, n)
}

} // verus!
