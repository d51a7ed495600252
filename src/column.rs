use vstd::prelude::*;

use crate::result::QueryResult;

verus! {

/// The character classes that label normalization trims.
#[derive(Debug, Clone, Copy, PartialEq, Eq)]
pub enum Trim {
    /// Unicode white space.
    Space,
    /// Quotes, backticks and square brackets.
    Quote,
    /// Round parentheses.
    Paren,
}

pub open spec fn is_space(c: char) -> bool {
    let u = c as u32;
    (0x09 <= u <= 0x0D) || u == 0x20 || u == 0x85 || u == 0xA0 || u == 0x1680 || (0x2000 <= u
        <= 0x200A) || u == 0x2028 || u == 0x2029 || u == 0x202F || u == 0x205F || u == 0x3000
}

pub open spec fn in_class(c: char, t: Trim) -> bool {
    match t {
        Trim::Space => is_space(c),
        Trim::Quote => c == '"' || c == '`' || c == '[' || c == ']',
        Trim::Paren => c == '(' || c == ')',
    }
}

fn is_in_class(c: char, t: Trim) -> (r: bool)
    ensures
        r == in_class(c, t),
{
    match t {
        Trim::Space => {
            let u = c as u32;
            (0x09 <= u && u <= 0x0D) || u == 0x20 || u == 0x85 || u == 0xA0 || u == 0x1680 || (
            0x2000 <= u && u <= 0x200A) || u == 0x2028 || u == 0x2029 || u == 0x202F || u
                == 0x205F || u == 0x3000
        },
        Trim::Quote => c == '"' || c == '`' || c == '[' || c == ']',
        Trim::Paren => c == '(' || c == ')',
    }
}

/// `s` without the characters of class `t` at its start.
pub open spec fn trim_start(s: Seq<char>, t: Trim) -> Seq<char>
    decreases s.len(),
{
    if s.len() > 0 && in_class(s[0], t) {
        trim_start(s.drop_first(), t)
    } else {
        s
    }
}

/// `s` without the characters of class `t` at its end.
pub open spec fn trim_end(s: Seq<char>, t: Trim) -> Seq<char>
    decreases s.len(),
{
    if s.len() > 0 && in_class(s.last(), t) {
        trim_end(s.drop_last(), t)
    } else {
        s
    }
}

/// `s` without the characters of class `t` at either end.
pub open spec fn trim(s: Seq<char>, t: Trim) -> Seq<char> {
    trim_end(trim_start(s, t), t)
}

proof fn lemma_trim_start_len(s: Seq<char>, t: Trim)
    ensures
        trim_start(s, t).len() <= s.len(),
    decreases s.len(),
{
    if s.len() > 0 && in_class(s[0], t) {
        lemma_trim_start_len(s.drop_first(), t);
    }
}

proof fn lemma_trim_end_len(s: Seq<char>, t: Trim)
    ensures
        trim_end(s, t).len() <= s.len(),
    decreases s.len(),
{
    if s.len() > 0 && in_class(s.last(), t) {
        lemma_trim_end_len(s.drop_last(), t);
    }
}

/// `s` with every enclosing pair of parentheses removed, trimming white space inside each.
pub open spec fn strip_parens(s: Seq<char>) -> Seq<char>
    decreases s.len(),
    via strip_parens_decreases
{
    if s.len() >= 2 && s[0] == '(' && s.last() == ')' {
        strip_parens(trim(s.subrange(1, s.len() - 1), Trim::Space))
    } else {
        s
    }
}

#[via_fn]
proof fn strip_parens_decreases(s: Seq<char>) {
    if s.len() >= 2 && s[0] == '(' && s.last() == ')' {
        let inner = s.subrange(1, s.len() - 1);
        lemma_trim_start_len(inner, Trim::Space);
        lemma_trim_end_len(trim_start(inner, Trim::Space), Trim::Space);
    }
}

/// The part of `s` after its last `.`, or all of `s` when it has none.
pub open spec fn last_segment(s: Seq<char>) -> Seq<char>
    decreases s.len(),
{
    if s.len() == 0 {
        s
    } else if s.last() == '.' {
        Seq::empty()
    } else {
        last_segment(s.drop_last()).push(s.last())
    }
}

/// The key under which a column label is exposed: trimmed, without enclosing parentheses or
/// quoting, and reduced to its last `.`-separated segment, itself unquoted.
pub open spec fn normalized(s: Seq<char>) -> Seq<char> {
    let unwrapped = trim(strip_parens(trim(s, Trim::Space)), Trim::Quote);
    let seg = trim(trim(last_segment(unwrapped), Trim::Space), Trim::Quote);
    trim(trim(seg, Trim::Paren), Trim::Space)
}

pub(crate) fn chars_of(s: &str) -> (r: Vec<char>)
    ensures
        r@ == s@,
{
    let n = s.unicode_len();
    let mut r: Vec<char> = Vec::new();
    for i in 0..n
        invariant
            n == s@.len(),
            r@ == s@.subrange(0, i as int),
    {
        r.push(s.get_char(i));
        assert(r@ =~= s@.subrange(0, i + 1));
    }
    assert(r@ =~= s@);
    r
}

/// Narrows the window `[lo, hi)` of `cs` to its part without class `t` at either end.
fn trim_window(cs: &Vec<char>, lo: usize, hi: usize, t: Trim) -> (r: (usize, usize))
    requires
        lo <= hi <= cs@.len(),
    ensures
        lo <= r.0 <= r.1 <= hi,
        cs@.subrange(r.0 as int, r.1 as int) == trim(cs@.subrange(lo as int, hi as int), t),
{
    let mut i = lo;
    while i < hi && is_in_class(cs[i], t)
        invariant
            lo <= i <= hi <= cs@.len(),
            trim_start(cs@.subrange(lo as int, hi as int), t) == trim_start(
                cs@.subrange(i as int, hi as int),
                t,
            ),
        decreases hi - i,
    {
        assert(cs@.subrange(i as int, hi as int).drop_first() =~= cs@.subrange(
            i + 1,
            hi as int,
        ));
        i = i + 1;
    }
    let mut j = hi;
    while j > i && is_in_class(cs[j - 1], t)
        invariant
            lo <= i <= j <= hi <= cs@.len(),
            trim_end(cs@.subrange(i as int, hi as int), t) == trim_end(
                cs@.subrange(i as int, j as int),
                t,
            ),
        decreases j - i,
    {
        assert(cs@.subrange(i as int, j as int).drop_last() =~= cs@.subrange(
            i as int,
            j - 1,
        ));
        j = j - 1;
    }
    (i, j)
}

impl QueryResult {
    /// The key under which a column label is exposed (see [`normalized`]).
    pub fn normalize_col(s: &str) -> (r: String)
        ensures
            r@ == normalized(s@),
    {
        let cs = chars_of(s);
        let n = cs.len();
        assert(cs@.subrange(0, n as int) =~= s@);
        let (mut lo, mut hi) = trim_window(&cs, 0, n, Trim::Space);
        while hi - lo >= 2 && cs[lo] == '(' && cs[hi - 1] == ')'
            invariant
                lo <= hi <= n == cs@.len(),
                strip_parens(trim(s@, Trim::Space)) == strip_parens(
                    cs@.subrange(lo as int, hi as int),
                ),
            decreases hi - lo,
        {
            let ghost w = cs@.subrange(lo as int, hi as int);
            assert(w.subrange(1, w.len() - 1) =~= cs@.subrange(lo + 1, hi - 1));
            let (a, b) = trim_window(&cs, lo + 1, hi - 1, Trim::Space);
            lo = a;
            hi = b;
        }
        let (qlo, qhi) = trim_window(&cs, lo, hi, Trim::Quote);
        let mut k = qhi;
        while k > qlo && cs[k - 1] != '.'
            invariant
                qlo <= k <= qhi <= n == cs@.len(),
                last_segment(cs@.subrange(qlo as int, qhi as int)) == last_segment(
                    cs@.subrange(qlo as int, k as int),
                ) + cs@.subrange(k as int, qhi as int),
            decreases k,
        {
            let ghost w = cs@.subrange(qlo as int, k as int);
            assert(w.drop_last() =~= cs@.subrange(qlo as int, k - 1));
            assert(cs@.subrange(k - 1, qhi as int) =~= seq![w.last()] + cs@.subrange(
                k as int,
                qhi as int,
            ));
            assert(last_segment(w) == last_segment(w.drop_last()).push(w.last()));
            assert(last_segment(w.drop_last()).push(w.last()) + cs@.subrange(k as int, qhi as int)
                =~= last_segment(w.drop_last()) + cs@.subrange(k - 1, qhi as int));
            k = k - 1;
        }
        assert(last_segment(cs@.subrange(qlo as int, qhi as int)) =~= cs@.subrange(
            k as int,
            qhi as int,
        ));
        let (slo, shi) = trim_window(&cs, k, qhi, Trim::Space);
        let (ulo, uhi) = trim_window(&cs, slo, shi, Trim::Quote);
        let (plo, phi) = trim_window(&cs, ulo, uhi, Trim::Paren);
        let (flo, fhi) = trim_window(&cs, plo, phi, Trim::Space);
        let out = s.substring_char(flo, fhi);
        String::from_str(out)
    }
    
    /// The part of a qualified name after its last `.`.
    pub fn short(name: &str) -> (r: String)
        ensures
            r@ == last_segment(name@),
    {
        let cs = chars_of(name);
        let n = cs.len();
        let mut k = n;
        assert(cs@.subrange(0, n as int) =~= name@);
        assert(last_segment(name@) =~= last_segment(cs@.subrange(0, n as int)) + cs@.subrange(
            n as int,
            n as int,
        ));
        while k > 0 && cs[k - 1] != '.'
            invariant
                k <= n == cs@.len(),
                cs@ == name@,
                last_segment(name@) == last_segment(cs@.subrange(0, k as int)) + cs@.subrange(
                    k as int,
                    n as int,
                ),
            decreases k,
        {
            let ghost w = cs@.subrange(0, k as int);
            assert(w.drop_last() =~= cs@.subrange(0, k - 1));
            assert(last_segment(w.drop_last()).push(w.last()) + cs@.subrange(k as int, n as int)
                =~= last_segment(w.drop_last()) + cs@.subrange(k - 1, n as int));
            k = k - 1;
        }
        assert(cs@.subrange(0, n as int) =~= name@);
        assert(last_segment(name@) =~= cs@.subrange(k as int, n as int));
        String::from_str(name.substring_char(k, n))
    }
}

pub open spec fn digit_char(d: int) -> char {
    seq!['0', '1', '2', '3', '4', '5', '6', '7', '8', '9'][d]
}

/// The decimal digits of `n`.
pub open spec fn decimal(n: nat) -> Seq<char>
    decreases n,
{
    if n < 10 {
        seq![digit_char(n as int)]
    } else {
        decimal(n / 10).push(digit_char((n % 10) as int))
    }
}

fn digit_text(d: usize) -> (r: &'static str)
    requires
        d < 10,
    ensures
        r@ == seq![digit_char(d as int)],
{
    proof {
        reveal_strlit("0");
        reveal_strlit("1");
        reveal_strlit("2");
        reveal_strlit("3");
        reveal_strlit("4");
        reveal_strlit("5");
        reveal_strlit("6");
        reveal_strlit("7");
        reveal_strlit("8");
        reveal_strlit("9");
    }
    let r = if d == 0 {
        "0"
    } else if d == 1 {
        "1"
    } else if d == 2 {
        "2"
    } else if d == 3 {
        "3"
    } else if d == 4 {
        "4"
    } else if d == 5 {
        "5"
    } else if d == 6 {
        "6"
    } else if d == 7 {
        "7"
    } else if d == 8 {
        "8"
    } else {
        "9"
    };
    assert(r@ =~= seq![digit_char(d as int)]);
    r
}

/// `n` written in decimal.
pub fn decimal_text(n: usize) -> (r: String)
    ensures
        r@ == decimal(n as nat),
    decreases n,
{
    if n < 10 {
        String::from_str(digit_text(n))
    } else {
        let mut r = decimal_text(n / 10);
        r.append(digit_text(n % 10));
        assert(r@ =~= decimal(n as nat));
        r
    }
}

/// The label given to the column at position `i` (from zero) when the server names none.
pub open spec fn synth_label(i: int) -> Seq<char> {
    "col"@ + decimal((i + 1) as nat)
}

/// The label `col<i + 1>`.
pub fn synth_label_text(i: usize) -> (r: String)
    requires
        i < usize::MAX,
    ensures
        r@ == synth_label(i as int),
{
    let mut r = String::from_str("col");
    let digits = decimal_text(i + 1);
    r.append(digits.as_str());
    r
}

} // verus!
