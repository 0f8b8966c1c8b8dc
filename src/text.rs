//! Character-level helpers shared by the line matchers.
use vstd::prelude::*;

verus! {

/// What `char::is_whitespace` answers for a character.
pub uninterp spec fn white_space(c: char) -> bool;

/// Relies on `char::is_whitespace`: the Unicode White_Space property, which
/// holds of the ASCII space, tab, line feed and carriage return.
#[verifier::external_body]
pub(crate) fn is_white_space(c: char) -> (r: bool)
    ensures
        r == white_space(c),
        (c == ' ' || c == '\t' || c == '\n' || c == '\r') ==> r,
{
    c.is_whitespace()
}

/// Relies on `str::chars`: the characters of the string, in order.
#[verifier::external_body]
pub(crate) fn chars_of(s: &str) -> (r: Vec<char>)
    ensures
        r@ == s@,
{
    s.chars().collect()
}

/// Relies on `FromIterator<char> for String`: the string of these characters.
#[verifier::external_body]
pub(crate) fn string_of(v: &[char]) -> (r: String)
    ensures
        r@ == v@,
{
    v.iter().collect()
}

pub open spec fn is_digit(c: char) -> bool {
    '0' <= c && c <= '9'
}

/// A character of a number field: a decimal digit or a point.
pub open spec fn is_digit_or_point(c: char) -> bool {
    is_digit(c) || c == '.'
}

/// A character of an identifier word: an ASCII letter, digit or underscore.
/// Digits and words of the firmware protocol are ASCII.
pub open spec fn is_word_char(c: char) -> bool {
    ('a' <= c && c <= 'z') || ('A' <= c && c <= 'Z') || is_digit(c) || c == '_'
}

pub open spec fn digit_pred() -> spec_fn(char) -> bool {
    |c: char| is_digit(c)
}

pub open spec fn digit_point_pred() -> spec_fn(char) -> bool {
    |c: char| is_digit_or_point(c)
}

pub open spec fn word_pred() -> spec_fn(char) -> bool {
    |c: char| is_word_char(c)
}

/// `t` occurs in `s` starting at index `i`.
pub open spec fn occurs_at(s: Seq<char>, t: Seq<char>, i: int) -> bool {
    0 <= i && i + t.len() <= s.len() && s.subrange(i, i + t.len()) == t
}

pub open spec fn contains(s: Seq<char>, t: Seq<char>) -> bool {
    exists|i: int| occurs_at(s, t, i)
}

/// `s` with leading and trailing white space removed.
pub open spec fn trimmed(s: Seq<char>) -> Seq<char>
    decreases s.len(),
{
    if s.len() > 0 && white_space(s[0]) {
        trimmed(s.drop_first())
    } else if s.len() > 0 && white_space(s.last()) {
        trimmed(s.drop_last())
    } else {
        s
    }
}

/// Index of the first occurrence of `c` in `s`, if any.
pub open spec fn first_index_of(s: Seq<char>, c: char) -> Option<int>
    decreases s.len(),
{
    if s.len() == 0 {
        None
    } else if s[0] == c {
        Some(0)
    } else {
        match first_index_of(s.drop_first(), c) {
            Some(i) => Some(i + 1),
            None => None,
        }
    }
}

/// End (exclusive) of the run of characters satisfying `p` that starts at `i`.
pub open spec fn run_end(s: Seq<char>, i: int, p: spec_fn(char) -> bool) -> int
    decreases s.len() - i,
{
    if i < 0 || i >= s.len() || !p(s[i]) {
        i
    } else {
        run_end(s, i + 1, p)
    }
}

pub proof fn lemma_run_end_bounds(s: Seq<char>, i: int, p: spec_fn(char) -> bool)
    ensures
        i <= run_end(s, i, p),
        0 <= i <= s.len() ==> run_end(s, i, p) <= s.len(),
        0 <= i ==> forall|k: int| i <= k < run_end(s, i, p) ==> p(#[trigger] s[k]),
        0 <= i && run_end(s, i, p) < s.len() ==> !p(s[run_end(s, i, p)]),
    decreases s.len() - i,
{
    if i < 0 || i >= s.len() || !p(s[i]) {
    } else {
        lemma_run_end_bounds(s, i + 1, p);
    }
}

/// Whether `t` occurs in `v` at index `i`.
pub fn matches_at(v: &Vec<char>, t: &str, i: usize) -> (r: bool)
    ensures
        r == occurs_at(v@, t@, i as int),
{
    let tv = chars_of(t);
    if i > v.len() || tv.len() > v.len() - i {
        return false;
    }
    let end = i + tv.len();
    let mut k: usize = 0;
    while k < tv.len()
        invariant
            end == i + tv@.len(),
            i + tv@.len() <= v@.len(),
            k <= tv@.len(),
            tv@ == t@,
            forall|j: int| 0 <= j < k ==> v@[i + j] == tv@[j],
        decreases tv.len() - k,
    {
        if v[i + k] != tv[k] {
            assert(v@.subrange(i as int, i + tv@.len())[k as int] != t@[k as int]);
            return false;
        }
        k = k + 1;
    }
    assert(v@.subrange(i as int, i + tv@.len()) =~= t@);
    true
}

/// Whether `t` occurs anywhere in `v`.
pub fn contains_str(v: &Vec<char>, t: &str) -> (r: bool)
    ensures
        r == contains(v@, t@),
{
    let mut i: usize = 0;
    while i < v.len()
        invariant
            i <= v@.len(),
            forall|j: int| 0 <= j < i ==> !occurs_at(v@, t@, j),
        decreases v.len() - i,
    {
        if matches_at(v, t, i) {
            return true;
        }
        i = i + 1;
    }
    if matches_at(v, t, i) {
        return true;
    }
    assert forall|j: int| !occurs_at(v@, t@, j) by {
        if 0 <= j && j <= i {
        }
    }
    false
}

/// End of the run of characters satisfying `p` from `i`, computed.
pub fn digit_run_end(v: &Vec<char>, i: usize, points: bool) -> (r: usize)
    requires
        i <= v@.len(),
    ensures
        points ==> r == run_end(v@, i as int, digit_point_pred()),
        !points ==> r == run_end(v@, i as int, digit_pred()),
{
    let mut k: usize = i;
    while k < v.len() && (('0' <= v[k] && v[k] <= '9') || (points && v[k] == '.'))
        invariant
            i <= k <= v@.len(),
            points ==> run_end(v@, i as int, digit_point_pred()) == run_end(
                v@,
                k as int,
                digit_point_pred(),
            ),
            !points ==> run_end(v@, i as int, digit_pred()) == run_end(
                v@,
                k as int,
                digit_pred(),
            ),
        decreases v.len() - k,
    {
        k = k + 1;
    }
    k
}

/// The characters of `v` with leading and trailing white space removed.
pub fn trim(v: &Vec<char>) -> (r: Vec<char>)
    ensures
        r@ == trimmed(v@),
{
    let mut start: usize = 0;
    assert(v@.subrange(0, v@.len() as int) =~= v@);
    while start < v.len() && is_white_space(v[start])
        invariant
            start <= v@.len(),
            trimmed(v@) == trimmed(v@.subrange(start as int, v@.len() as int)),
        decreases v.len() - start,
    {
        assert(v@.subrange(start as int, v@.len() as int).drop_first() =~= v@.subrange(
            start + 1,
            v@.len() as int,
        ));
        start = start + 1;
    }
    let mut end: usize = v.len();
    while end > start && is_white_space(v[end - 1])
        invariant
            start <= end <= v@.len(),
            trimmed(v@) == trimmed(v@.subrange(start as int, end as int)),
            start < end ==> !white_space(v@[start as int]),
        decreases end - start,
    {
        assert(v@.subrange(start as int, end as int).drop_last() =~= v@.subrange(
            start as int,
            end - 1,
        ));
        end = end - 1;
    }
    let mut r: Vec<char> = Vec::new();
    let mut k: usize = start;
    while k < end
        invariant
            start <= k <= end <= v@.len(),
            r@ == v@.subrange(start as int, k as int),
        decreases end - k,
    {
        r.push(v[k]);
        assert(r@ =~= v@.subrange(start as int, k + 1));
        k = k + 1;
    }
    r
}

/// The characters of `v` before index `end`.
pub fn prefix(v: &Vec<char>, end: usize) -> (r: Vec<char>)
    requires
        end <= v@.len(),
    ensures
        r@ == v@.subrange(0, end as int),
{
    let mut r: Vec<char> = Vec::new();
    let mut k: usize = 0;
    while k < end
        invariant
            k <= end <= v@.len(),
            r@ == v@.subrange(0, k as int),
        decreases end - k,
    {
        r.push(v[k]);
        assert(r@ =~= v@.subrange(0, k + 1));
        k = k + 1;
    }
    r
}

/// The characters of `v` from `start` up to `end`.
pub fn slice_of(v: &Vec<char>, start: usize, end: usize) -> (r: Vec<char>)
    requires
        start <= end <= v@.len(),
    ensures
        r@ == v@.subrange(start as int, end as int),
{
    let mut r: Vec<char> = Vec::new();
    let mut k: usize = start;
    while k < end
        invariant
            start <= k <= end <= v@.len(),
            r@ == v@.subrange(start as int, k as int),
        decreases end - k,
    {
        r.push(v[k]);
        assert(r@ =~= v@.subrange(start as int, k + 1));
        k = k + 1;
    }
    r
}

/// Index of the first `c` in `v`, if any.
pub fn find_char(v: &Vec<char>, c: char) -> (r: Option<usize>)
    ensures
        r matches Some(i) ==> first_index_of(v@, c) == Some(i as int) && i < v@.len(),
        r is None ==> first_index_of(v@, c) is None,
{
    let mut k: usize = 0;
    assert(v@.subrange(0, v@.len() as int) =~= v@);
    while k < v.len()
        invariant
            k <= v@.len(),
            first_index_of(v@, c) == (match first_index_of(v@.subrange(k as int, v@.len() as int), c) {
                Some(i) => Some(i + k),
                None => None,
            }),
        decreases v.len() - k,
    {
        assert(v@.subrange(k as int, v@.len() as int).drop_first() =~= v@.subrange(
            k + 1,
            v@.len() as int,
        ));
        if v[k] == c {
            assert(first_index_of(v@.subrange(k as int, v@.len() as int), c) == Some(0int));
            return Some(k);
        }
        k = k + 1;
    }
    assert(v@.subrange(k as int, v@.len() as int) =~= Seq::<char>::empty());
    None
}

} // verus!

verus! {

pub open spec fn ws_pred() -> spec_fn(char) -> bool {
    |c: char| white_space(c)
}

/// End of the run of white space that starts at `i`.
pub fn ws_run_end(v: &Vec<char>, i: usize) -> (r: usize)
    requires
        i <= v@.len(),
    ensures
        r == run_end(v@, i as int, ws_pred()),
{
    let mut k: usize = i;
    while k < v.len() && is_white_space(v[k])
        invariant
            i <= k <= v@.len(),
            run_end(v@, i as int, ws_pred()) == run_end(v@, k as int, ws_pred()),
        decreases v.len() - k,
    {
        k = k + 1;
    }
    k
}

/// Decimal text of `n`, without leading zeros.
pub open spec fn decimal_text(n: nat) -> Seq<char>
    decreases n,
{
    if n < 10 {
        seq![digit_char(n)]
    } else {
        decimal_text(n / 10).push(digit_char(n % 10))
    }
}

pub open spec fn digit_char(d: nat) -> char {
    (('0' as nat) + d) as char
}

/// Writes `n` in decimal.
pub fn decimal_string(n: u64) -> (r: Vec<char>)
    ensures
        r@ == decimal_text(n as nat),
{
    let mut digits: Vec<char> = Vec::new();
    let mut m: u64 = n;
    // Digits are collected last first.
    while m >= 10
        invariant
            decimal_text(n as nat) == decimal_text(m as nat) + digits@.reverse(),
        decreases m,
    {
        let d = m % 10;
        let c = ((('0' as u32) + (d as u32)) as u8) as char;
        assert(c == digit_char(d as nat));
        let ghost old_digits = digits@;
        digits.push(c);
        assert(digits@.reverse() =~= seq![c] + old_digits.reverse());
        assert(decimal_text(m as nat) == decimal_text((m / 10) as nat).push(c));
        assert(decimal_text((m / 10) as nat).push(c) + old_digits.reverse() =~= decimal_text(
            (m / 10) as nat,
        ) + (seq![c] + old_digits.reverse()));
        m = m / 10;
    }
    let c = ((('0' as u32) + (m as u32)) as u8) as char;
    assert(c == digit_char(m as nat));
    let mut r: Vec<char> = Vec::new();
    r.push(c);
    assert(r@ =~= decimal_text(m as nat));
    let mut k: usize = digits.len();
    while k > 0
        invariant
            k <= digits@.len(),
            decimal_text(n as nat) == decimal_text(m as nat) + digits@.reverse(),
            r@ == decimal_text(m as nat) + digits@.subrange(k as int, digits@.len() as int).reverse(),
        decreases k,
    {
        k = k - 1;
        let ghost prev = r@;
        r.push(digits[k]);
        assert(digits@.subrange(k as int, digits@.len() as int).reverse() =~= digits@.subrange(
            k + 1,
            digits@.len() as int,
        ).reverse().push(digits@[k as int]));
    }
    assert(digits@.subrange(0, digits@.len() as int) =~= digits@);
    r
}

} // verus!
