//! Character-level text utilities: the string model every other module is
//! specified against. Strings are viewed as `Seq<char>`.
use vstd::prelude::*;

verus! {

// ---------------------------------------------------------------------------
// Specification of the text operations
// ---------------------------------------------------------------------------

/// `s` begins with `p`.
pub open spec fn has_prefix(s: Seq<char>, p: Seq<char>) -> bool {
    p.len() <= s.len() && s.take(p.len() as int) == p
}

/// `s` ends with `p`.
pub open spec fn has_suffix(s: Seq<char>, p: Seq<char>) -> bool {
    p.len() <= s.len() && s.skip(s.len() - p.len()) == p
}

/// `p` occurs in `s` starting at index `i`.
pub open spec fn occurs_at(s: Seq<char>, p: Seq<char>, i: int) -> bool {
    0 <= i && i + p.len() <= s.len() && s.subrange(i, i + p.len()) == p
}

/// `p` is a substring of `s`.
pub open spec fn has_substring(s: Seq<char>, p: Seq<char>) -> bool {
    exists|i: int| occurs_at(s, p, i)
}

/// `s` with every trailing `c` removed (`str::trim_end_matches(c)`).
pub open spec fn trim_end_char(s: Seq<char>, c: char) -> Seq<char>
    decreases s.len(),
{
    if s.len() > 0 && s.last() == c {
        trim_end_char(s.drop_last(), c)
    } else {
        s
    }
}

/// `s` with every leading `c` removed (`str::trim_start_matches(c)`).
pub open spec fn trim_start_char(s: Seq<char>, c: char) -> Seq<char>
    decreases s.len(),
{
    if s.len() > 0 && s.first() == c {
        trim_start_char(s.drop_first(), c)
    } else {
        s
    }
}

/// Unicode `White_Space`, as `char::is_whitespace` documents it.
pub open spec fn is_ws(c: char) -> bool {
    ||| c == ' '
    ||| ('\t' <= c && c <= '\r')
    ||| c == '\u{85}'
    ||| c == '\u{a0}'
    ||| c == '\u{1680}'
    ||| ('\u{2000}' <= c && c <= '\u{200a}')
    ||| c == '\u{2028}'
    ||| c == '\u{2029}'
    ||| c == '\u{202f}'
    ||| c == '\u{205f}'
    ||| c == '\u{3000}'
}

/// `s` without trailing whitespace.
pub open spec fn trim_end_ws(s: Seq<char>) -> Seq<char>
    decreases s.len(),
{
    if s.len() > 0 && is_ws(s.last()) {
        trim_end_ws(s.drop_last())
    } else {
        s
    }
}

/// `s` without leading whitespace.
pub open spec fn trim_start_ws(s: Seq<char>) -> Seq<char>
    decreases s.len(),
{
    if s.len() > 0 && is_ws(s.first()) {
        trim_start_ws(s.drop_first())
    } else {
        s
    }
}

/// `s` without leading and trailing whitespace (`str::trim`).
pub open spec fn trim_ws(s: Seq<char>) -> Seq<char> {
    trim_end_ws(trim_start_ws(s))
}

/// The pieces of `s` between occurrences of `c` (`str::split(c)`): never empty.
pub open spec fn split_on(s: Seq<char>, c: char) -> Seq<Seq<char>>
    decreases s.len(),
{
    if s.len() == 0 {
        seq![Seq::<char>::empty()]
    } else {
        let r = split_on(s.drop_last(), c);
        if s.last() == c {
            r.push(Seq::<char>::empty())
        } else {
            r.update(r.len() - 1, r.last().push(s.last()))
        }
    }
}

/// A line that was ended by `'\n'`, without a `'\r'` that stood before it.
pub open spec fn strip_cr(l: Seq<char>) -> Seq<char> {
    if l.len() > 0 && l.last() == '\r' {
        l.drop_last()
    } else {
        l
    }
}

/// The lines of `s` (`str::lines`): split at `'\n'`; a `'\r'` before a
/// `'\n'` is dropped; a final empty line after the last `'\n'` is not one.
pub open spec fn lines_of(s: Seq<char>) -> Seq<Seq<char>> {
    let p = split_on(s, '\n');
    let ended = p.drop_last().map_values(|l: Seq<char>| strip_cr(l));
    if p.last().len() == 0 {
        ended
    } else {
        ended.push(p.last())
    }
}

/// The maximal runs of non-whitespace characters of `s` (`str::split_whitespace`).
pub open spec fn words_of(s: Seq<char>) -> Seq<Seq<char>>
    decreases s.len(),
{
    if s.len() == 0 {
        Seq::empty()
    } else {
        let r = words_of(s.drop_last());
        if is_ws(s.last()) {
            r
        } else if s.len() >= 2 && !is_ws(s[s.len() - 2]) {
            r.update(r.len() - 1, r.last().push(s.last()))
        } else {
            r.push(seq![s.last()])
        }
    }
}

/// The value of a decimal digit character.
pub open spec fn digit_value(c: char) -> nat {
    (c as int - '0' as int) as nat
}

pub open spec fn is_digit(c: char) -> bool {
    '0' <= c && c <= '9'
}

pub open spec fn all_digits(s: Seq<char>) -> bool {
    forall|i: int| 0 <= i < s.len() ==> is_digit(#[trigger] s[i])
}

/// The number that the decimal digits `s` denote.
pub open spec fn digits_value(s: Seq<char>) -> nat
    decreases s.len(),
{
    if s.len() == 0 {
        0
    } else {
        digits_value(s.drop_last()) * 10 + digit_value(s.last())
    }
}

/// What `str::parse` gives for an unsigned integer type whose largest value
/// is `max`: an optional `'+'`, then at least one decimal digit, and a value
/// no larger than `max`.
pub open spec fn parse_unsigned(s: Seq<char>, max: nat) -> Option<nat> {
    let d = if s.len() > 1 && s[0] == '+' {
        s.drop_first()
    } else {
        s
    };
    if d.len() > 0 && all_digits(d) && digits_value(d) <= max {
        Some(digits_value(d))
    } else {
        None
    }
}

/// The character of a decimal digit.
pub open spec fn digit_char(d: nat) -> char {
    (d + '0' as int) as char
}

/// The decimal form of `n`, without leading zeros (`Display` of an integer).
pub open spec fn decimal(n: nat) -> Seq<char>
    decreases n,
{
    if n < 10 {
        seq![digit_char(n)]
    } else {
        decimal(n / 10).push(digit_char(n % 10))
    }
}

/// The decimal form of a signed integer (`Display` of `i64`, `i32`).
pub open spec fn signed_decimal(n: int) -> Seq<char> {
    if n < 0 {
        seq!['-'] + decimal((-n) as nat)
    } else {
        decimal(n as nat)
    }
}

// ---------------------------------------------------------------------------
// Lemmas
// ---------------------------------------------------------------------------

pub proof fn lemma_split_on_nonempty(s: Seq<char>, c: char)
    ensures
        split_on(s, c).len() >= 1,
    decreases s.len(),
{
    if s.len() > 0 {
        lemma_split_on_nonempty(s.drop_last(), c);
    }
}

pub proof fn lemma_digits_value_monotone(s: Seq<char>, k: int)
    requires
        0 <= k <= s.len(),
    ensures
        digits_value(s.take(k)) <= digits_value(s),
    decreases s.len() - k,
{
    if k < s.len() {
        lemma_digits_value_monotone(s, k + 1);
        assert(s.take(k + 1).drop_last() =~= s.take(k));
    } else {
        assert(s.take(k) =~= s);
    }
}

// ---------------------------------------------------------------------------
// Executable operations
// ---------------------------------------------------------------------------

/// Appends one character to a string (`String::push`).
#[verifier::external_body]
pub(crate) fn push_char(s: &mut String, c: char)
    ensures
        final(s)@ == old(s)@.push(c),
{
    s.push(c);
}

/// The characters of `s`, in order.
pub fn to_chars(s: &str) -> (v: Vec<char>)
    ensures
        v@ == s@,
{
    let mut v: Vec<char> = Vec::new();
    for c in iter: s.chars()
        invariant
            v@ == iter.seq().take(iter.index() as int),
    {
        v.push(c);
    }
    v
}

/// The string made of `v[lo..hi]`.
pub fn string_of_range(v: &Vec<char>, lo: usize, hi: usize) -> (s: String)
    requires
        lo <= hi <= v.len(),
    ensures
        s@ == v@.subrange(lo as int, hi as int),
{
    let mut s = String::new();
    let mut i = lo;
    while i < hi
        invariant
            lo <= i <= hi <= v.len(),
            s@ == v@.subrange(lo as int, i as int),
        decreases hi - i,
    {
        push_char(&mut s, v[i]);
        assert(v@.subrange(lo as int, i + 1) =~= v@.subrange(lo as int, i as int).push(v@[i as int]));
        i += 1;
    }
    s
}

/// The string made of all of `v`.
pub fn string_of(v: &Vec<char>) -> (s: String)
    ensures
        s@ == v@,
{
    let s = string_of_range(v, 0, v.len());
    assert(v@.subrange(0, v@.len() as int) =~= v@);
    s
}

/// An owned copy of `s`.
pub fn owned(s: &str) -> (r: String)
    ensures
        r@ == s@,
{
    s.to_owned()
}

/// `a + b`.
pub fn concat2(a: &str, b: &str) -> (r: String)
    ensures
        r@ == a@ + b@,
{
    let mut r = a.to_owned();
    r.append(b);
    r
}

/// `a + b + c`.
pub fn concat3(a: &str, b: &str, c: &str) -> (r: String)
    ensures
        r@ == a@ + b@ + c@,
{
    let mut r = a.to_owned();
    r.append(b);
    r.append(c);
    r
}

/// `a == b`, character by character.
pub fn chars_eq(a: &Vec<char>, b: &Vec<char>) -> (r: bool)
    ensures
        r == (a@ == b@),
{
    if a.len() != b.len() {
        return false;
    }
    let mut i: usize = 0;
    while i < a.len()
        invariant
            a.len() == b.len(),
            0 <= i <= a.len(),
            forall|j: int| 0 <= j < i ==> a@[j] == b@[j],
        decreases a.len() - i,
    {
        if a[i] != b[i] {
            return false;
        }
        i += 1;
    }
    assert(a@ =~= b@);
    true
}

/// `a == b` for strings.
pub fn str_eq(a: &str, b: &str) -> (r: bool)
    ensures
        r == (a@ == b@),
{
    let va = to_chars(a);
    let vb = to_chars(b);
    chars_eq(&va, &vb)
}

/// `s[i..]` starts with `p`.
pub fn chars_match_at(s: &Vec<char>, p: &Vec<char>, i: usize) -> (r: bool)
    ensures
        r == occurs_at(s@, p@, i as int),
{
    if i > s.len() || p.len() > s.len() - i {
        return false;
    }
    let mut j: usize = 0;
    while j < p.len()
        invariant
            i + p.len() <= s.len(),
            0 <= j <= p.len(),
            forall|k: int| 0 <= k < j ==> s@[i + k] == p@[k],
        decreases p.len() - j,
    {
        if s[i + j] != p[j] {
            assert(s@.subrange(i as int, i + p.len())[j as int] != p@[j as int]);
            return false;
        }
        j += 1;
    }
    assert(s@.subrange(i as int, i + p.len()) =~= p@);
    true
}

/// `s` starts with `p`.
pub fn starts_with(s: &str, p: &str) -> (r: bool)
    ensures
        r == has_prefix(s@, p@),
{
    let vs = to_chars(s);
    let vp = to_chars(p);
    let r = chars_match_at(&vs, &vp, 0);
    assert(r ==> vs@.subrange(0, vp@.len() as int) =~= vs@.take(vp@.len() as int));
    assert(has_prefix(s@, p@) ==> vs@.subrange(0, vp@.len() as int) =~= vs@.take(vp@.len() as int));
    r
}

/// `s` ends with `p`.
pub fn ends_with(s: &str, p: &str) -> (r: bool)
    ensures
        r == has_suffix(s@, p@),
{
    let vs = to_chars(s);
    let vp = to_chars(p);
    if vp.len() > vs.len() {
        return false;
    }
    let i = vs.len() - vp.len();
    let r = chars_match_at(&vs, &vp, i);
    assert(vs@.subrange(i as int, i + vp@.len()) =~= vs@.skip(i as int));
    r
}

/// `p` occurs somewhere in `s`.
pub fn contains(s: &str, p: &str) -> (r: bool)
    ensures
        r == has_substring(s@, p@),
{
    let vs = to_chars(s);
    let vp = to_chars(p);
    if vp.len() > vs.len() {
        assert(forall|i: int| !occurs_at(s@, p@, i));
        return false;
    }
    if vp.len() == 0 {
        assert(s@.subrange(0, 0) =~= p@);
        assert(occurs_at(s@, p@, 0));
        return true;
    }
    let last = vs.len() - vp.len();
    let mut i: usize = 0;
    while i <= last
        invariant
            vs@ == s@,
            vp@ == p@,
            last == vs.len() - vp.len(),
            last < vs.len(),
            0 <= i <= last + 1,
            forall|k: int| 0 <= k < i ==> !occurs_at(s@, p@, k),
        decreases last + 1 - i,
    {
        if chars_match_at(&vs, &vp, i) {
            return true;
        }
        i += 1;
    }
    assert(forall|k: int| !occurs_at(s@, p@, k));
    false
}

/// `s` with its `p` prefix removed, if it has that prefix (`str::strip_prefix`).
pub fn strip_prefix(s: &str, p: &str) -> (r: Option<String>)
    ensures
        has_prefix(s@, p@) <==> r is Some,
        r matches Some(t) ==> t@ == s@.skip(p@.len() as int),
{
    if starts_with(s, p) {
        let vs = to_chars(s);
        let n = p.unicode_len();
        Some(string_of_range(&vs, n, vs.len()))
    } else {
        None
    }
}

/// `s` with its `p` suffix removed, if it has that suffix (`str::strip_suffix`).
pub fn strip_suffix(s: &str, p: &str) -> (r: Option<String>)
    ensures
        has_suffix(s@, p@) <==> r is Some,
        r matches Some(t) ==> t@ == s@.take(s@.len() - p@.len()),
{
    if ends_with(s, p) {
        let vs = to_chars(s);
        let n = p.unicode_len();
        Some(string_of_range(&vs, 0, vs.len() - n))
    } else {
        None
    }
}

/// End index of `v[..hi]` once the trailing `c` are removed.
fn trim_end_char_index(v: &Vec<char>, hi: usize, c: char) -> (j: usize)
    requires
        hi <= v.len(),
    ensures
        j <= hi,
        v@.subrange(0, j as int) == trim_end_char(v@.subrange(0, hi as int), c),
{
    let mut j = hi;
    while j > 0 && v[j - 1] == c
        invariant
            j <= hi <= v.len(),
            trim_end_char(v@.subrange(0, j as int), c) == trim_end_char(v@.subrange(0, hi as int), c),
        decreases j,
    {
        assert(v@.subrange(0, j as int).drop_last() =~= v@.subrange(0, j - 1));
        j -= 1;
    }
    j
}

/// `s` with every trailing `c` removed.
pub fn trim_end_matches(s: &str, c: char) -> (r: String)
    ensures
        r@ == trim_end_char(s@, c),
{
    let v = to_chars(s);
    assert(v@.subrange(0, v@.len() as int) =~= v@);
    let j = trim_end_char_index(&v, v.len(), c);
    string_of_range(&v, 0, j)
}

/// `s` with every leading `c` removed.
pub fn trim_start_matches(s: &str, c: char) -> (r: String)
    ensures
        r@ == trim_start_char(s@, c),
{
    let v = to_chars(s);
    let mut i: usize = 0;
    assert(v@.subrange(0, v@.len() as int) =~= v@);
    while i < v.len() && v[i] == c
        invariant
            i <= v.len(),
            trim_start_char(v@.subrange(i as int, v@.len() as int), c) == trim_start_char(v@, c),
        decreases v.len() - i,
    {
        assert(v@.subrange(i as int, v@.len() as int).drop_first() =~= v@.subrange(i + 1, v@.len() as int));
        i += 1;
    }
    string_of_range(&v, i, v.len())
}

/// Whether `c` is whitespace (`char::is_whitespace`).
pub fn is_whitespace(c: char) -> (r: bool)
    ensures
        r == is_ws(c),
{
    c == ' ' || ('\t' <= c && c <= '\r') || c == '\u{85}' || c == '\u{a0}' || c == '\u{1680}'
        || ('\u{2000}' <= c && c <= '\u{200a}') || c == '\u{2028}' || c == '\u{2029}'
        || c == '\u{202f}' || c == '\u{205f}' || c == '\u{3000}'
}

/// The bounds of `v[lo..hi]` once whitespace is removed at both ends.
pub fn trim_bounds(v: &Vec<char>, lo: usize, hi: usize) -> (r: (usize, usize))
    requires
        lo <= hi <= v.len(),
    ensures
        lo <= r.0 <= r.1 <= hi,
        v@.subrange(r.0 as int, r.1 as int) == trim_ws(v@.subrange(lo as int, hi as int)),
{
    let mut i = lo;
    while i < hi && is_whitespace(v[i])
        invariant
            lo <= i <= hi <= v.len(),
            trim_start_ws(v@.subrange(i as int, hi as int)) == trim_start_ws(v@.subrange(lo as int, hi as int)),
        decreases hi - i,
    {
        assert(v@.subrange(i as int, hi as int).drop_first() =~= v@.subrange(i + 1, hi as int));
        i += 1;
    }
    let mut j = hi;
    while j > i && is_whitespace(v[j - 1])
        invariant
            lo <= i <= j <= hi <= v.len(),
            trim_end_ws(v@.subrange(i as int, j as int)) == trim_end_ws(v@.subrange(i as int, hi as int)),
        decreases j,
    {
        assert(v@.subrange(i as int, j as int).drop_last() =~= v@.subrange(i as int, j - 1));
        j -= 1;
    }
    (i, j)
}

/// `s` without leading and trailing whitespace.
pub fn trim(s: &str) -> (r: String)
    ensures
        r@ == trim_ws(s@),
{
    let v = to_chars(s);
    assert(v@.subrange(0, v@.len() as int) =~= v@);
    let (i, j) = trim_bounds(&v, 0, v.len());
    string_of_range(&v, i, j)
}

/// The decimal form of `n`.
pub fn fmt_u64(n: u64) -> (s: String)
    ensures
        s@ == decimal(n as nat),
    decreases n,
{
    let d: u8 = (n % 10) as u8;
    let c: char = (48u8 + d) as char;
    assert(c == digit_char((n % 10) as nat));
    if n < 10 {
        let mut s = String::new();
        push_char(&mut s, c);
        assert(s@ =~= seq![c]);
        s
    } else {
        let mut s = fmt_u64(n / 10);
        push_char(&mut s, c);
        s
    }
}

/// The decimal form of a signed `n`.
pub fn fmt_i64(n: i64) -> (s: String)
    ensures
        s@ == signed_decimal(n as int),
{
    if n < 0 {
        let m: u64 = if n == i64::MIN {
            9223372036854775808u64
        } else {
            (-n) as u64
        };
        let digits = fmt_u64(m);
        let mut s = String::new();
        push_char(&mut s, '-');
        s.append(digits.as_str());
        assert(s@ =~= seq!['-'] + decimal((-(n as int)) as nat));
        s
    } else {
        fmt_u64(n as u64)
    }
}

/// The value of the decimal digits `v[lo..hi]`, unless it exceeds `u64::MAX`.
fn digits_u64(v: &Vec<char>, lo: usize, hi: usize) -> (r: Option<u64>)
    requires
        lo <= hi <= v.len(),
        all_digits(v@.subrange(lo as int, hi as int)),
    ensures
        r matches Some(x) ==> x == digits_value(v@.subrange(lo as int, hi as int)),
        r is None ==> digits_value(v@.subrange(lo as int, hi as int)) > u64::MAX,
{
    let mut acc: u64 = 0;
    let mut i = lo;
    while i < hi
        invariant
            lo <= i <= hi <= v.len(),
            all_digits(v@.subrange(lo as int, hi as int)),
            acc == digits_value(v@.subrange(lo as int, i as int)),
        decreases hi - i,
    {
        assert(v@.subrange(lo as int, hi as int)[i - lo] == v@[i as int]);
        let d: u64 = (v[i] as u64) - ('0' as u64);
        assert(v@.subrange(lo as int, i + 1).drop_last() =~= v@.subrange(lo as int, i as int));
        match acc.checked_mul(10) {
            Some(m) => match m.checked_add(d) {
                Some(x) => {
                    acc = x;
                },
                None => {
                    proof {
                        assert(v@.subrange(lo as int, hi as int).take(i + 1 - lo) =~= v@.subrange(lo as int, i + 1));
                        lemma_digits_value_monotone(v@.subrange(lo as int, hi as int), i + 1 - lo);
                    }
                    return None;
                },
            },
            None => {
                proof {
                    assert(v@.subrange(lo as int, hi as int).take(i + 1 - lo) =~= v@.subrange(lo as int, i + 1));
                    lemma_digits_value_monotone(v@.subrange(lo as int, hi as int), i + 1 - lo);
                }
                return None;
            },
        }
        i += 1;
    }
    Some(acc)
}

/// Whether `v[lo..hi]` holds decimal digits only.
fn digits_in_range(v: &Vec<char>, lo: usize, hi: usize) -> (r: bool)
    requires
        lo <= hi <= v.len(),
    ensures
        r == all_digits(v@.subrange(lo as int, hi as int)),
{
    let mut i = lo;
    while i < hi
        invariant
            lo <= i <= hi <= v.len(),
            forall|k: int| lo <= k < i ==> is_digit(#[trigger] v@[k]),
        decreases hi - i,
    {
        if !('0' <= v[i] && v[i] <= '9') {
            assert(v@.subrange(lo as int, hi as int)[i - lo] == v@[i as int]);
            return false;
        }
        i += 1;
    }
    assert forall|k: int| 0 <= k < hi - lo implies is_digit(#[trigger] v@.subrange(lo as int, hi as int)[k]) by {
        assert(v@.subrange(lo as int, hi as int)[k] == v@[lo + k]);
    }
    true
}

/// Parses `v[lo..hi]` as `str::parse::<u64>` does, with values capped at `max`.
pub fn parse_unsigned_range(v: &Vec<char>, lo: usize, hi: usize, max: u64) -> (r: Option<u64>)
    requires
        lo <= hi <= v.len(),
    ensures
        r matches Some(x) ==> parse_unsigned(v@.subrange(lo as int, hi as int), max as nat) == Some(x as nat),
        r is None ==> parse_unsigned(v@.subrange(lo as int, hi as int), max as nat) is None,
{
    let ghost s = v@.subrange(lo as int, hi as int);
    let start = if hi - lo > 1 && v[lo] == '+' {
        lo + 1
    } else {
        lo
    };
    proof {
        if hi - lo > 1 && v@[lo as int] == '+' {
            assert(s.drop_first() =~= v@.subrange(start as int, hi as int));
        } else {
            assert(s =~= v@.subrange(start as int, hi as int));
        }
    }
    if start == hi {
        assert(v@.subrange(start as int, hi as int).len() == 0);
        return None;
    }
    if !digits_in_range(v, start, hi) {
        return None;
    }
    assert(all_digits(v@.subrange(start as int, hi as int)));
    match digits_u64(v, start, hi) {
        Some(x) => {
            if x <= max {
                Some(x)
            } else {
                None
            }
        },
        None => None,
    }
}

/// `str::parse::<u64>`.
pub fn parse_u64(s: &str) -> (r: Option<u64>)
    ensures
        r matches Some(x) ==> parse_unsigned(s@, u64::MAX as nat) == Some(x as nat),
        r is None ==> parse_unsigned(s@, u64::MAX as nat) is None,
{
    let v = to_chars(s);
    assert(v@.subrange(0, v@.len() as int) =~= v@);
    parse_unsigned_range(&v, 0, v.len(), u64::MAX)
}

/// `str::parse::<u32>`.
pub fn parse_u32(s: &str) -> (r: Option<u32>)
    ensures
        r matches Some(x) ==> parse_unsigned(s@, u32::MAX as nat) == Some(x as nat),
        r is None ==> parse_unsigned(s@, u32::MAX as nat) is None,
{
    let v = to_chars(s);
    assert(v@.subrange(0, v@.len() as int) =~= v@);
    match parse_unsigned_range(&v, 0, v.len(), u32::MAX as u64) {
        Some(x) => Some(x as u32),
        None => None,
    }
}


// ---------------------------------------------------------------------------
// Lists of lines, and std's `Debug` text
// ---------------------------------------------------------------------------

/// The texts of a list of strings.
pub open spec fn views(v: Seq<String>) -> Seq<Seq<char>> {
    v.map_values(|s: String| s@)
}

/// Appends the line `s` to `v`.
pub fn push_line(v: &mut Vec<String>, s: String)
    ensures
        views(final(v)@) == views(old(v)@).push(s@),
{
    let ghost before = v@;
    v.push(s);
    assert(views(v@) =~= views(before).push(s@));
}

/// What `format!("{:?}", s)` gives for a string `s`: its `Debug` text.
pub uninterp spec fn debug_quoted(s: Seq<char>) -> Seq<char>;

/// The `Debug` texts of the strings `v`, separated by `", "`.
pub open spec fn debug_items(v: Seq<Seq<char>>) -> Seq<char>
    decreases v.len(),
{
    if v.len() == 0 {
        Seq::<char>::empty()
    } else if v.len() == 1 {
        debug_quoted(v[0])
    } else {
        debug_items(v.drop_last()) + ", "@ + debug_quoted(v.last())
    }
}

/// What `format!("{:?}", v)` gives for a list of strings with texts `v`:
/// the items' `Debug` texts between `[` and `]`, separated by `", "`.
pub open spec fn debug_list(v: Seq<Seq<char>>) -> Seq<char> {
    "["@ + debug_items(v) + "]"@
}

/// std's `Debug` text of a string (quoted, with escapes).
#[verifier::external_body]
pub(crate) fn debug_str(s: &str) -> (r: String)
    ensures
        r@ == debug_quoted(s@),
{
    format!("{:?}", s)
}

/// std's `Debug` text of a list of strings (`["a", "b"]`), as
/// [`debug_list`] states it over the items' own `Debug` texts.
#[verifier::external_body]
pub(crate) fn debug_strings(v: &Vec<String>) -> (r: String)
    ensures
        r@ == debug_list(views(v@)),
{
    format!("{:?}", v)
}

/// `s` padded with spaces on the right to `w` characters (as `{:<w}`).
pub open spec fn pad_right(s: Seq<char>, w: nat) -> Seq<char> {
    if s.len() >= w {
        s
    } else {
        s + Seq::new((w - s.len()) as nat, |i: int| ' ')
    }
}

/// `s` padded with spaces on the right to `w` characters.
pub fn pad_to(s: &str, w: usize) -> (r: String)
    ensures
        r@ == pad_right(s@, w as nat),
{
    let n = to_chars(s).len();
    let mut r = owned(s);
    if n >= w {
        return r;
    }
    let mut k: usize = n;
    while k < w
        invariant
            n <= k <= w,
            n == s@.len(),
            r@ == s@ + Seq::new((k - n) as nat, |i: int| ' '),
        decreases w - k,
    {
        push_char(&mut r, ' ');
        k += 1;
        assert(r@ =~= s@ + Seq::new((k - n) as nat, |i: int| ' '));
    }
    r
}


// ---------------------------------------------------------------------------
// Splitting text
// ---------------------------------------------------------------------------

/// The pieces of `s` between occurrences of `c` (`str::split(c)`).
pub fn split_char(s: &str, c: char) -> (r: Vec<String>)
    ensures
        views(r@) == split_on(s@, c),
{
    let v = to_chars(s);
    let mut done: Vec<String> = Vec::new();
    let mut start: usize = 0;
    let mut i: usize = 0;
    assert(v@.take(0) =~= Seq::<char>::empty());
    assert(views(done@).push(v@.subrange(0, 0)) =~= split_on(v@.take(0), c));
    while i < v.len()
        invariant
            0 <= start <= i <= v.len(),
            v@ == s@,
            split_on(v@.take(i as int), c) == views(done@).push(v@.subrange(start as int, i as int)),
        decreases v.len() - i,
    {
        let ghost before = views(done@);
        assert(v@.take(i + 1).drop_last() =~= v@.take(i as int));
        assert(v@.take(i + 1).last() == v@[i as int]);
        if v[i] == c {
            let piece = string_of_range(&v, start, i);
            push_line(&mut done, piece);
            start = i + 1;
            assert(v@.subrange(start as int, i + 1) =~= Seq::<char>::empty());
            assert(split_on(v@.take(i + 1), c) =~= views(done@).push(v@.subrange(start as int, i + 1)));
        } else {
            assert(v@.subrange(start as int, i + 1) =~= v@.subrange(start as int, i as int).push(v@[i as int]));
            assert(split_on(v@.take(i + 1), c) =~= views(done@).push(v@.subrange(start as int, i + 1)));
        }
        i += 1;
    }
    let last = string_of_range(&v, start, v.len());
    push_line(&mut done, last);
    assert(v@.take(v@.len() as int) =~= v@);
    done
}

/// The lines of `s` (`str::lines`).
pub fn lines(s: &str) -> (r: Vec<String>)
    ensures
        views(r@) == lines_of(s@),
{
    let pieces = split_char(s, '\n');
    let ghost p = split_on(s@, '\n');
    proof {
        lemma_split_on_nonempty(s@, '\n');
    }
    let n = pieces.len();
    assert(views(pieces@).len() == p.len());
    let mut out: Vec<String> = Vec::new();
    let mut i: usize = 0;
    while i + 1 < n
        invariant
            n == pieces.len(),
            n >= 1,
            0 <= i < n,
            views(pieces@) == p,
            views(out@) == p.take(i as int).map_values(|l: Seq<char>| strip_cr(l)),
        decreases n - i,
    {
        let ghost before = views(out@);
        let piece = &pieces[i];
        assert(piece@ == p[i as int]);
        let cv = to_chars(piece.as_str());
        let line = if cv.len() > 0 && cv[cv.len() - 1] == '\r' {
            let t = string_of_range(&cv, 0, cv.len() - 1);
            assert(cv@.subrange(0, cv@.len() - 1) =~= cv@.drop_last());
            t
        } else {
            owned(piece.as_str())
        };
        assert(line@ == strip_cr(p[i as int]));
        push_line(&mut out, line);
        assert(p.take(i + 1).map_values(|l: Seq<char>| strip_cr(l)) =~= before.push(strip_cr(p[i as int])));
        i += 1;
    }
    assert(p.take(i as int) =~= p.drop_last());
    let last = &pieces[n - 1];
    assert(last@ == p.last());
    if to_chars(last.as_str()).len() > 0 {
        push_line(&mut out, owned(last.as_str()));
    }
    out
}

/// The maximal runs of non-whitespace characters of `s` (`str::split_whitespace`).
pub fn words(s: &str) -> (r: Vec<String>)
    ensures
        views(r@) == words_of(s@),
{
    let v = to_chars(s);
    let mut done: Vec<String> = Vec::new();
    let mut start: usize = 0;
    let mut i: usize = 0;
    assert(v@.take(0) =~= Seq::<char>::empty());
    while i < v.len()
        invariant
            0 <= start <= i <= v.len(),
            v@ == s@,
            (i > 0 && !is_ws(v@[i - 1])) ==> start < i && words_of(v@.take(i as int)) == views(done@).push(
                v@.subrange(start as int, i as int),
            ),
            !(i > 0 && !is_ws(v@[i - 1])) ==> words_of(v@.take(i as int)) == views(done@),
        decreases v.len() - i,
    {
        let ghost before = views(done@);
        assert(v@.take(i + 1).drop_last() =~= v@.take(i as int));
        assert(v@.take(i + 1).last() == v@[i as int]);
        let in_word = i > 0 && !is_whitespace(v[i - 1]);
        if i > 0 {
            assert(v@.take(i + 1)[i - 1] == v@[i - 1]);
        }
        if is_whitespace(v[i]) {
            if in_word {
                let w = string_of_range(&v, start, i);
                push_line(&mut done, w);
            }
        } else if in_word {
            assert(v@.subrange(start as int, i + 1) =~= v@.subrange(start as int, i as int).push(v@[i as int]));
            assert(words_of(v@.take(i + 1)) =~= before.push(v@.subrange(start as int, i + 1)));
        } else {
            start = i;
            assert(v@.subrange(start as int, i + 1) =~= seq![v@[i as int]]);
            assert(words_of(v@.take(i + 1)) =~= before.push(v@.subrange(start as int, i + 1)));
        }
        i += 1;
    }
    assert(v@.take(v@.len() as int) =~= v@);
    if i > 0 && !is_whitespace(v[i - 1]) {
        let w = string_of_range(&v, start, i);
        push_line(&mut done, w);
    }
    done
}

} // verus!
