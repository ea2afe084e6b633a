//! Character-level helpers for the path handling of the filesystem.
//!
//! Paths are handled as sequences of `char`s. The spec functions below say
//! what the trimming and splitting operations used on object keys compute;
//! the executable functions compute them on `Vec<char>` ranges.

use vstd::prelude::*;

verus! {

/// Drops every leading `c` of `s` (what `str::trim_start_matches(c)` gives).
pub open spec fn skip_leading(s: Seq<char>, c: char) -> Seq<char>
    decreases s.len(),
{
    if s.len() > 0 && s[0] == c {
        skip_leading(s.drop_first(), c)
    } else {
        s
    }
}

/// Drops every trailing `c` of `s` (what `str::trim_end_matches(c)` gives).
pub open spec fn skip_trailing(s: Seq<char>, c: char) -> Seq<char>
    decreases s.len(),
{
    if s.len() > 0 && s.last() == c {
        skip_trailing(s.drop_last(), c)
    } else {
        s
    }
}

/// Drops leading and trailing `c` (what `str::trim_matches(c)` gives).
pub open spec fn trim_both(s: Seq<char>, c: char) -> Seq<char> {
    skip_trailing(skip_leading(s, c), c)
}

/// What `skip_leading` leaves does not start with `c`.
pub proof fn lemma_leading_gone(s: Seq<char>, c: char)
    ensures
        skip_leading(s, c).len() == 0 || skip_leading(s, c)[0] != c,
    decreases s.len(),
{
    if s.len() > 0 && s[0] == c {
        lemma_leading_gone(s.drop_first(), c);
    }
}

/// What `skip_trailing` leaves is a prefix of `s` that does not end with `c`,
/// and all that it drops is `c`.
pub proof fn lemma_trailing_is_prefix(s: Seq<char>, c: char)
    ensures
        skip_trailing(s, c).len() <= s.len(),
        skip_trailing(s, c) =~= s.subrange(0, skip_trailing(s, c).len() as int),
        skip_trailing(s, c).len() == 0 || skip_trailing(s, c).last() != c,
        forall|i: int| skip_trailing(s, c).len() <= i < s.len() ==> s[i] == c,
    decreases s.len(),
{
    if s.len() > 0 && s.last() == c {
        lemma_trailing_is_prefix(s.drop_last(), c);
        let r = skip_trailing(s.drop_last(), c);
        assert(s.drop_last().subrange(0, r.len() as int) =~= s.subrange(0, r.len() as int));
        assert forall|i: int| r.len() <= i < s.len() implies s[i] == c by {
            if i < s.len() - 1 {
                assert(s.drop_last()[i] == s[i]);
            }
        }
    }
}

/// The part of `s` before its first `c`, or all of `s` when it holds no `c`.
pub open spec fn before_first(s: Seq<char>, c: char) -> Seq<char>
    decreases s.len(),
{
    if s.len() == 0 {
        s
    } else if s[0] == c {
        Seq::empty()
    } else {
        seq![s[0]] + before_first(s.drop_first(), c)
    }
}

/// When the first `c` of `s` is at `n` (or there is none and `n` is its
/// length), the part before the first `c` is the first `n` characters.
pub proof fn lemma_before_first_at(s: Seq<char>, c: char, n: int)
    requires
        0 <= n <= s.len(),
        forall|i: int| 0 <= i < n ==> s[i] != c,
        n == s.len() || s[n] == c,
    ensures
        before_first(s, c) == s.subrange(0, n),
    decreases n,
{
    if s.len() == 0 {
        assert(s.subrange(0, n) =~= s);
    } else if n == 0 {
        assert(s.subrange(0, 0) =~= Seq::<char>::empty());
    } else {
        let t = s.drop_first();
        assert forall|i: int| 0 <= i < n - 1 implies t[i] != c by {
            assert(t[i] == s[i + 1]);
        }
        if n < s.len() {
            assert(t[n - 1] == s[n]);
        }
        lemma_before_first_at(t, c, n - 1);
        assert(s.subrange(0, n) =~= seq![s[0]] + t.subrange(0, n - 1));
    }
}

/// The part of `s` after its last `c`, or all of `s` when it holds no `c`.
pub open spec fn after_last(s: Seq<char>, c: char) -> Seq<char>
    decreases s.len(),
{
    if s.len() == 0 {
        s
    } else if s.last() == c {
        Seq::empty()
    } else {
        after_last(s.drop_last(), c).push(s.last())
    }
}

/// The part of `s` before its last `c`, or the empty sequence when it holds no `c`.
pub open spec fn before_last(s: Seq<char>, c: char) -> Seq<char>
    decreases s.len(),
{
    if s.len() == 0 {
        s
    } else if s.last() == c {
        s.drop_last()
    } else {
        before_last(s.drop_last(), c)
    }
}

/// `p` is a prefix of `s`.
pub open spec fn has_prefix(s: Seq<char>, p: Seq<char>) -> bool {
    p.len() <= s.len() && s.subrange(0, p.len() as int) == p
}

/// Appends `c` to `s` (`String::push`).
#[verifier::external_body]
pub(crate) fn push_char(s: &mut String, c: char)
    ensures
        final(s)@ == old(s)@.push(c),
{
    s.push(c);
}

/// The characters of `s`, in order.
pub fn chars_of(s: &str) -> (r: Vec<char>)
    ensures
        r@ == s@,
{
    let mut r: Vec<char> = Vec::new();
    for c in it: s.chars()
        invariant
            r@ == it.seq().take(it.index() as int),
            it.seq() == s@,
    {
        r.push(c);
    }
    r
}

/// The string made of `v[lo..hi]`.
pub fn string_of(v: &Vec<char>, lo: usize, hi: usize) -> (r: String)
    requires
        lo <= hi <= v@.len(),
    ensures
        r@ == v@.subrange(lo as int, hi as int),
{
    let mut r = String::new();
    let mut i = lo;
    while i < hi
        invariant
            lo <= i <= hi <= v@.len(),
            r@ == v@.subrange(lo as int, i as int),
        decreases hi - i,
    {
        push_char(&mut r, v[i]);
        assert(v@.subrange(lo as int, i + 1) =~= v@.subrange(lo as int, i as int).push(v@[i as int]));
        i = i + 1;
    }
    r
}


/// Start of `skip_leading(v[lo..hi], c)` within `v`.
pub fn skip_leading_at(v: &Vec<char>, lo: usize, hi: usize, c: char) -> (k: usize)
    requires
        lo <= hi <= v@.len(),
    ensures
        lo <= k <= hi,
        skip_leading(v@.subrange(lo as int, hi as int), c) == v@.subrange(k as int, hi as int),
{
    let mut i = lo;
    while i < hi && v[i] == c
        invariant
            lo <= i <= hi <= v@.len(),
            skip_leading(v@.subrange(lo as int, hi as int), c) == skip_leading(
                v@.subrange(i as int, hi as int),
                c,
            ),
        decreases hi - i,
    {
        assert(v@.subrange(i as int, hi as int).drop_first() =~= v@.subrange(i + 1, hi as int));
        i = i + 1;
    }
    proof {
        lemma_skip_leading_stops(v@, i, hi, c);
    }
    i
}

proof fn lemma_skip_leading_stops(v: Seq<char>, i: usize, hi: usize, c: char)
    requires
        i <= hi <= v.len(),
        i == hi || v[i as int] != c,
    ensures
        skip_leading(v.subrange(i as int, hi as int), c) == v.subrange(i as int, hi as int),
{
}

/// End of `skip_trailing(v[lo..hi], c)` within `v`.
pub fn skip_trailing_at(v: &Vec<char>, lo: usize, hi: usize, c: char) -> (k: usize)
    requires
        lo <= hi <= v@.len(),
    ensures
        lo <= k <= hi,
        skip_trailing(v@.subrange(lo as int, hi as int), c) == v@.subrange(lo as int, k as int),
{
    let mut j = hi;
    while j > lo && v[j - 1] == c
        invariant
            lo <= j <= hi <= v@.len(),
            skip_trailing(v@.subrange(lo as int, hi as int), c) == skip_trailing(
                v@.subrange(lo as int, j as int),
                c,
            ),
        decreases j - lo,
    {
        assert(v@.subrange(lo as int, j as int).drop_last() =~= v@.subrange(lo as int, j - 1));
        j = j - 1;
    }
    j
}

/// End of `before_first(v[lo..hi], c)` within `v`: the index of the first `c`, or `hi`.
pub fn find_first(v: &Vec<char>, lo: usize, hi: usize, c: char) -> (k: usize)
    requires
        lo <= hi <= v@.len(),
    ensures
        lo <= k <= hi,
        before_first(v@.subrange(lo as int, hi as int), c) == v@.subrange(lo as int, k as int),
        k < hi ==> v@[k as int] == c,
        forall|j: int| lo <= j < k ==> v@[j] != c,
{
    let mut i = lo;
    while i < hi && v[i] != c
        invariant
            lo <= i <= hi <= v@.len(),
            before_first(v@.subrange(lo as int, hi as int), c) == v@.subrange(lo as int, i as int)
                + before_first(v@.subrange(i as int, hi as int), c),
            forall|j: int| lo <= j < i ==> v@[j] != c,
        decreases hi - i,
    {
        let ghost t = v@.subrange(i as int, hi as int);
        assert(t.drop_first() =~= v@.subrange(i + 1, hi as int));
        assert(v@.subrange(lo as int, i + 1) =~= v@.subrange(lo as int, i as int) + seq![v@[i as int]]);
        i = i + 1;
    }
    assert(v@.subrange(lo as int, i as int) + Seq::<char>::empty() =~= v@.subrange(lo as int, i as int));
    assert(i == hi ==> v@.subrange(i as int, hi as int) =~= Seq::<char>::empty());
    i
}

/// Index of the last `c` in `v[lo..hi]`, if any.
pub fn find_last(v: &Vec<char>, lo: usize, hi: usize, c: char) -> (r: Option<usize>)
    requires
        lo <= hi <= v@.len(),
    ensures
        match r {
            Some(k) => {
                &&& lo <= k < hi
                &&& v@[k as int] == c
                &&& after_last(v@.subrange(lo as int, hi as int), c) == v@.subrange(k + 1, hi as int)
                &&& before_last(v@.subrange(lo as int, hi as int), c) == v@.subrange(lo as int, k as int)
            },
            None => {
                &&& after_last(v@.subrange(lo as int, hi as int), c) == v@.subrange(lo as int, hi as int)
                &&& before_last(v@.subrange(lo as int, hi as int), c) == Seq::<char>::empty()
                &&& forall|j: int| lo <= j < hi ==> v@[j] != c
            },
        },
{
    let mut j = hi;
    while j > lo && v[j - 1] != c
        invariant
            lo <= j <= hi <= v@.len(),
            after_last(v@.subrange(lo as int, hi as int), c) == after_last(
                v@.subrange(lo as int, j as int),
                c,
            ) + v@.subrange(j as int, hi as int),
            before_last(v@.subrange(lo as int, hi as int), c) == before_last(
                v@.subrange(lo as int, j as int),
                c,
            ),
            forall|x: int| j <= x < hi ==> v@[x] != c,
        decreases j - lo,
    {
        let ghost t = v@.subrange(lo as int, j as int);
        assert(t.drop_last() =~= v@.subrange(lo as int, j - 1));
        assert(after_last(t, c) == after_last(t.drop_last(), c).push(t.last()));
        assert(after_last(t.drop_last(), c).push(t.last()) + v@.subrange(j as int, hi as int)
            =~= after_last(t.drop_last(), c) + v@.subrange(j - 1, hi as int));
        j = j - 1;
    }
    if j > lo {
        let ghost t = v@.subrange(lo as int, j as int);
        assert(t.drop_last() =~= v@.subrange(lo as int, j - 1));
        assert(Seq::<char>::empty() + v@.subrange(j as int, hi as int) =~= v@.subrange(j as int, hi as int));
        Some(j - 1)
    } else {
        assert(v@.subrange(lo as int, j as int) =~= Seq::<char>::empty());
        assert(Seq::<char>::empty() + v@.subrange(lo as int, hi as int) =~= v@.subrange(lo as int, hi as int));
        None
    }
}

/// Whether `v[lo..hi]` holds a `c`.
pub fn contains_char(v: &Vec<char>, lo: usize, hi: usize, c: char) -> (r: bool)
    requires
        lo <= hi <= v@.len(),
    ensures
        r == v@.subrange(lo as int, hi as int).contains(c),
{
    let mut i = lo;
    while i < hi
        invariant
            lo <= i <= hi <= v@.len(),
            forall|j: int| lo <= j < i ==> v@[j] != c,
        decreases hi - i,
    {
        if v[i] == c {
            assert(v@.subrange(lo as int, hi as int)[i - lo] == c);
            return true;
        }
        i = i + 1;
    }
    assert forall|x: int| 0 <= x < hi - lo implies v@.subrange(lo as int, hi as int)[x] != c by {
        assert(v@.subrange(lo as int, hi as int)[x] == v@[lo + x]);
    }
    false
}

/// Whether `p` is a prefix of `v`.
pub fn starts_with(v: &Vec<char>, p: &Vec<char>) -> (r: bool)
    ensures
        r == has_prefix(v@, p@),
{
    if p.len() > v.len() {
        return false;
    }
    let mut i: usize = 0;
    while i < p.len()
        invariant
            p@.len() <= v@.len(),
            i <= p@.len(),
            forall|j: int| 0 <= j < i ==> v@[j] == p@[j],
        decreases p@.len() - i,
    {
        if v[i] != p[i] {
            assert(v@.subrange(0, p@.len() as int)[i as int] != p@[i as int]);
            return false;
        }
        i = i + 1;
    }
    assert(v@.subrange(0, p@.len() as int) =~= p@);
    true
}


/// The decimal digit character for `d < 10`.
pub open spec fn digit_char(d: nat) -> char {
    ((d + 48) as u32) as char
}

/// Decimal representation of `n`, without sign or leading zeros.
pub open spec fn decimal(n: nat) -> Seq<char>
    decreases n,
{
    if n < 10 {
        seq![digit_char(n)]
    } else {
        decimal(n / 10).push(digit_char(n % 10))
    }
}

/// Whether `c` is an ASCII decimal digit.
pub open spec fn is_digit(c: char) -> bool {
    '0' <= c && c <= '9'
}

/// The number written by the decimal digits `s`.
pub open spec fn digits_value(s: Seq<char>) -> nat
    decreases s.len(),
{
    if s.len() == 0 {
        0
    } else {
        digits_value(s.drop_last()) * 10 + ((s.last() as u32) - 48) as nat
    }
}

/// What `str::parse::<u32>` gives: an optional `+` followed by one or more
/// decimal digits whose value fits in a `u32`; anything else is refused.
pub open spec fn parse_u32_spec(s: Seq<char>) -> Option<u32> {
    let t = if s.len() > 0 && s[0] == '+' { s.drop_first() } else { s };
    if t.len() > 0 && (forall|i: int| 0 <= i < t.len() ==> is_digit(#[trigger] t[i])) && digits_value(t)
        <= u32::MAX {
        Some(digits_value(t) as u32)
    } else {
        None
    }
}

/// Whether `c` is an octal digit.
pub open spec fn is_octal_digit(c: char) -> bool {
    '0' <= c && c <= '7'
}

/// The number written by the octal digits `s`.
pub open spec fn octal_value(s: Seq<char>) -> nat
    decreases s.len(),
{
    if s.len() == 0 {
        0
    } else {
        octal_value(s.drop_last()) * 8 + ((s.last() as u32) - 48) as nat
    }
}

/// What `u32::from_str_radix(s, 8)` gives: an optional `+` followed by one
/// or more octal digits whose value fits in a `u32`; anything else is
/// refused.
pub open spec fn parse_octal_spec(s: Seq<char>) -> Option<u32> {
    let t = if s.len() > 0 && s[0] == '+' { s.drop_first() } else { s };
    if t.len() > 0 && (forall|i: int| 0 <= i < t.len() ==> is_octal_digit(#[trigger] t[i])) && octal_value(t)
        <= u32::MAX {
        Some(octal_value(t) as u32)
    } else {
        None
    }
}

/// `u32::from_str_radix(s, 8)`, with the error dropped.
#[verifier::external_body]
pub(crate) fn parse_octal(s: &str) -> (r: Option<u32>)
    ensures
        r == parse_octal_spec(s@),
{
    u32::from_str_radix(s, 8).ok()
}

/// `s` with every leading copy of `p` taken off, as `str::trim_start_matches`
/// does with a string pattern.
pub open spec fn trim_start_matches(s: Seq<char>, p: Seq<char>) -> Seq<char>
    decreases s.len(),
{
    if p.len() > 0 && s.len() >= p.len() && s.take(p.len() as int) == p {
        trim_start_matches(s.skip(p.len() as int), p)
    } else {
        s
    }
}

/// Where the text of `v` from `lo` on starts once every leading copy of `p`
/// is taken off.
pub fn trim_start_at(v: &Vec<char>, lo: usize, p: &Vec<char>) -> (r: usize)
    requires
        lo <= v@.len(),
    ensures
        lo <= r <= v@.len(),
        v@.skip(r as int) == trim_start_matches(v@.skip(lo as int), p@),
{
    let mut i = lo;
    let n = p.len();
    if n == 0 {
        return i;
    }
    while n <= v.len() - i && starts_with_at(v, i, p)
        invariant
            lo <= i <= v@.len(),
            n == p@.len(),
            n > 0,
            trim_start_matches(v@.skip(i as int), p@) == trim_start_matches(v@.skip(lo as int), p@),
        decreases v@.len() - i,
    {
        proof {
            let t = v@.skip(i as int);
            assert(t.take(n as int) =~= p@);
            assert(t.skip(n as int) =~= v@.skip(i + n));
        }
        i = i + n;
    }
    proof {
        let t = v@.skip(i as int);
        if n <= v@.len() - i {
            assert(t.take(n as int) != p@) by {
                if t.take(n as int) == p@ {
                    assert forall|j: int| 0 <= j < n implies v@[i + j] == p@[j] by {
                        assert(t.take(n as int)[j] == v@[i + j]);
                    }
                }
            }
        }
    }
    i
}

/// Whether `p` occurs in `v` at `at`.
fn starts_with_at(v: &Vec<char>, at: usize, p: &Vec<char>) -> (r: bool)
    requires
        at + p@.len() <= v@.len(),
    ensures
        r == (forall|j: int| 0 <= j < p@.len() ==> v@[at + j] == p@[j]),
{
    let m = v.len();
    let mut j: usize = 0;
    while j < p.len()
        invariant
            j <= p@.len(),
            m == v@.len(),
            at + p@.len() <= v@.len(),
            forall|k: int| 0 <= k < j ==> v@[at + k] == p@[k],
        decreases p@.len() - j,
    {
        if v[at + j] != p[j] {
            return false;
        }
        j = j + 1;
    }
    true
}

/// `u64::to_string`: the decimal representation of `x`.
#[verifier::external_body]
pub(crate) fn u64_to_decimal(x: u64) -> (r: String)
    ensures
        r@ == decimal(x as nat),
{
    x.to_string()
}

/// `u32::to_string`: the decimal representation of `x`.
#[verifier::external_body]
pub(crate) fn u32_to_decimal(x: u32) -> (r: String)
    ensures
        r@ == decimal(x as nat),
{
    x.to_string()
}

/// `str::parse::<u32>`, with the error dropped.
#[verifier::external_body]
pub(crate) fn parse_u32(s: &str) -> (r: Option<u32>)
    ensures
        r == parse_u32_spec(s@),
{
    s.parse::<u32>().ok()
}

proof fn lemma_digit_char(d: nat)
    requires
        d < 10,
    ensures
        digit_char(d) as u32 == d + 48,
        is_digit(digit_char(d)),
{
    let x = (d + 48) as u32;
    assert(x as char as u32 == x);
}

/// The decimal representation of `n` is made of digits, starts with a digit
/// and has the value `n`.
pub proof fn lemma_decimal_value(n: nat)
    ensures
        decimal(n).len() > 0,
        forall|i: int| 0 <= i < decimal(n).len() ==> is_digit(#[trigger] decimal(n)[i]),
        digits_value(decimal(n)) == n,
    decreases n,
{
    if n < 10 {
        assert(decimal(n) =~= seq![digit_char(n)]);
        assert(decimal(n).drop_last() =~= Seq::<char>::empty());
        lemma_digit_char(n);
        assert(decimal(n).last() == digit_char(n));
        assert(digits_value(decimal(n).drop_last()) == 0);
        assert(digits_value(decimal(n)) == n);
    } else {
        lemma_digit_char(n % 10);
        lemma_decimal_value(n / 10);
        let d = decimal(n / 10);
        assert(decimal(n).drop_last() =~= d);
        assert(decimal(n).last() == digit_char(n % 10));
        assert(digits_value(decimal(n)) == digits_value(d) * 10 + ((digit_char(n % 10) as u32) - 48) as nat);
        assert(digits_value(decimal(n)) == n);
        assert forall|i: int| 0 <= i < decimal(n).len() implies is_digit(#[trigger] decimal(n)[i]) by {
            if i < d.len() {
                assert(decimal(n)[i] == d[i]);
            }
        }
    }
}

/// Parsing the decimal representation of a `u32` gives it back.
pub proof fn lemma_parse_decimal_round_trip(x: u32)
    ensures
        parse_u32_spec(decimal(x as nat)) == Some(x),
{
    lemma_decimal_value(x as nat);
    let s = decimal(x as nat);
    assert(is_digit(s[0]));
}

} // verus!
