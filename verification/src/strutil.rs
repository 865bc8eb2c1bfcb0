//! Verified string helpers: decimal rendering, prefix tests, ASCII case
//! folding, trimming, and digit parsing.
//!
//! These are written over `Seq<char>` views so the command parser and the
//! display-path parser can state exact contracts about the strings they
//! produce and consume.

use vstd::prelude::*;

verus! {

/// The decimal digit character for `d` (`0 <= d <= 9`).
pub open spec fn spec_digit_char(d: int) -> char {
    if d == 0 {
        '0'
    } else if d == 1 {
        '1'
    } else if d == 2 {
        '2'
    } else if d == 3 {
        '3'
    } else if d == 4 {
        '4'
    } else if d == 5 {
        '5'
    } else if d == 6 {
        '6'
    } else if d == 7 {
        '7'
    } else if d == 8 {
        '8'
    } else {
        '9'
    }
}

/// The usual decimal rendering of `n`, most significant digit first.
pub open spec fn spec_decimal(n: nat) -> Seq<char>
    decreases n,
{
    if n < 10 {
        seq![spec_digit_char(n as int)]
    } else {
        spec_decimal(n / 10) + seq![spec_digit_char((n % 10) as int)]
    }
}

/// One decimal digit as a string slice.
fn digit_str(d: usize) -> (r: &'static str)
    requires
        d < 10,
    ensures
        r@ == seq![spec_digit_char(d as int)],
{
    let r: &'static str = if d == 0 {
        "0"
    } else if d == 1 {
        "1"
    } else if d == 2 {
        "2"
    } else if d == 3 {
        "3"
    } else if d == 4 {
        "4"
    } else if d == 5 {
        "5"
    } else if d == 6 {
        "6"
    } else if d == 7 {
        "7"
    } else if d == 8 {
        "8"
    } else {
        "9"
    };
    proof {
        reveal_strlit("0");
        reveal_strlit("1");
        reveal_strlit("2");
        reveal_strlit("3");
        reveal_strlit("4");
        reveal_strlit("5");
        reveal_strlit("6");
        reveal_strlit("7");
        reveal_strlit("8");
        reveal_strlit("9");
        assert(r@ =~= seq![spec_digit_char(d as int)]);
    }
    r
}

/// Render `n` in decimal.
pub fn usize_to_string(n: usize) -> (s: String)
    ensures
        s@ == spec_decimal(n as nat),
    decreases n,
{
    if n < 10 {
        digit_str(n).to_owned()
    } else {
        let mut s = usize_to_string(n / 10);
        s.append(digit_str(n % 10));
        s
    }
}

/// Render `n` in decimal.
pub fn u32_to_string(n: u32) -> (s: String)
    ensures
        s@ == spec_decimal(n as nat),
{
    usize_to_string(n as usize)
}

/// `p` is a prefix of `s`.
pub open spec fn spec_starts_with(s: Seq<char>, p: Seq<char>) -> bool {
    p.len() <= s.len() && s.subrange(0, p.len() as int) == p
}

/// Whether `s` starts with `p`, over characters.
pub fn str_starts_with(s: &str, p: &str) -> (r: bool)
    ensures
        r == spec_starts_with(s@, p@),
{
    let sn = s.unicode_len();
    let pn = p.unicode_len();
    if pn > sn {
        proof {
            assert(!spec_starts_with(s@, p@));
        }
        return false;
    }
    let mut i: usize = 0;
    while i < pn
        invariant
            i <= pn,
            pn == p@.len(),
            pn <= sn,
            sn == s@.len(),
            forall|j: int| 0 <= j < i ==> s@[j] == p@[j],
        decreases pn - i,
    {
        if s.get_char(i) != p.get_char(i) {
            proof {
                assert(s@.subrange(0, p@.len() as int)[i as int] == s@[i as int]);
                assert(s@.subrange(0, p@.len() as int) != p@);
            }
            return false;
        }
        i = i + 1;
    }
    proof {
        assert(s@.subrange(0, p@.len() as int) =~= p@);
    }
    true
}

/// What remains of `s` after a prefix `p`, when `p` is indeed a prefix.
pub fn strip_prefix_str(s: &str, p: &str) -> (r: Option<String>)
    ensures
        match r {
            Some(rest) => spec_starts_with(s@, p@) && rest@ == s@.skip(p@.len() as int),
            None => !spec_starts_with(s@, p@),
        },
{
    if str_starts_with(s, p) {
        let sn = s.unicode_len();
        let pn = p.unicode_len();
        let rest = s.substring_char(pn, sn);
        proof {
            assert(rest@ =~= s@.skip(p@.len() as int));
        }
        Some(rest.to_owned())
    } else {
        None
    }
}

/// ASCII lowercase folding on a unicode scalar value.
pub open spec fn spec_lower_u32(x: u32) -> u32 {
    if 65 <= x <= 90 {
        (x + 32) as u32
    } else {
        x
    }
}

/// The two strings are equal up to ASCII case.
pub open spec fn spec_eq_ignore_ascii_case(a: Seq<char>, b: Seq<char>) -> bool {
    a.len() == b.len() && forall|i: int|
        0 <= i < a.len() ==> spec_lower_u32(#[trigger] a[i] as u32) == spec_lower_u32(b[i] as u32)
}

/// Compare two strings ignoring ASCII case.
pub fn str_eq_ignore_ascii_case(a: &str, b: &str) -> (r: bool)
    ensures
        r == spec_eq_ignore_ascii_case(a@, b@),
{
    let an = a.unicode_len();
    let bn = b.unicode_len();
    if an != bn {
        return false;
    }
    let mut i: usize = 0;
    while i < an
        invariant
            i <= an,
            an == a@.len(),
            an == bn,
            bn == b@.len(),
            forall|j: int|
                0 <= j < i ==> spec_lower_u32(#[trigger] a@[j] as u32) == spec_lower_u32(
                    b@[j] as u32,
                ),
        decreases an - i,
    {
        let mut au = a.get_char(i) as u32;
        let mut bu = b.get_char(i) as u32;
        if 65 <= au && au <= 90 {
            au = au + 32;
        }
        if 65 <= bu && bu <= 90 {
            bu = bu + 32;
        }
        if au != bu {
            return false;
        }
        i = i + 1;
    }
    true
}

/// An ASCII whitespace character: space, tab, line feed, vertical tab,
/// form feed or carriage return.
pub open spec fn spec_is_space(c: char) -> bool {
    c as u32 == 32 || (9 <= c as u32 <= 13)
}

/// `s` with leading whitespace removed.
pub open spec fn spec_trim_front(s: Seq<char>) -> Seq<char>
    decreases s.len(),
{
    if s.len() > 0 && spec_is_space(s[0]) {
        spec_trim_front(s.drop_first())
    } else {
        s
    }
}

/// `s` with trailing whitespace removed.
pub open spec fn spec_trim_back(s: Seq<char>) -> Seq<char>
    decreases s.len(),
{
    if s.len() > 0 && spec_is_space(s[s.len() - 1]) {
        spec_trim_back(s.drop_last())
    } else {
        s
    }
}

/// `s` with whitespace removed from both ends.
pub open spec fn spec_trim(s: Seq<char>) -> Seq<char> {
    spec_trim_back(spec_trim_front(s))
}

proof fn lemma_trim_front_skip(s: Seq<char>, k: int)
    requires
        0 <= k <= s.len(),
        forall|j: int| 0 <= j < k ==> spec_is_space(s[j]),
        k == s.len() || !spec_is_space(s[k]),
    ensures
        spec_trim_front(s) == s.skip(k),
    decreases k,
{
    if k == 0 {
        assert(s.skip(0) =~= s);
    } else {
        assert(spec_is_space(s[0]));
        lemma_trim_front_skip(s.drop_first(), k - 1);
        assert(s.drop_first().skip(k - 1) =~= s.skip(k));
    }
}

proof fn lemma_trim_back_take(s: Seq<char>, k: int)
    requires
        0 <= k <= s.len(),
        forall|j: int| k <= j < s.len() ==> spec_is_space(s[j]),
        k == 0 || !spec_is_space(s[k - 1]),
    ensures
        spec_trim_back(s) == s.take(k),
    decreases s.len() - k,
{
    if k == s.len() {
        assert(s.take(k) =~= s);
        if s.len() > 0 {
            assert(!spec_is_space(s[s.len() - 1]));
        }
    } else {
        assert(spec_is_space(s[s.len() - 1]));
        lemma_trim_back_take(s.drop_last(), k);
        assert(s.drop_last().take(k) =~= s.take(k));
    }
}

/// Whether `c` is an ASCII whitespace character.
fn is_space_char(c: char) -> (r: bool)
    ensures
        r == spec_is_space(c),
{
    let u = c as u32;
    u == 32 || (9 <= u && u <= 13)
}

/// Remove ASCII whitespace from both ends of `s`.
pub fn trim_spaces(s: &str) -> (r: String)
    ensures
        r@ == spec_trim(s@),
{
    let n = s.unicode_len();
    let mut lo: usize = 0;
    while lo < n && is_space_char(s.get_char(lo))
        invariant
            lo <= n,
            n == s@.len(),
            forall|j: int| 0 <= j < lo ==> spec_is_space(s@[j]),
        decreases n - lo,
    {
        lo = lo + 1;
    }
    proof {
        lemma_trim_front_skip(s@, lo as int);
    }
    let mut hi: usize = n;
    while hi > lo && is_space_char(s.get_char(hi - 1))
        invariant
            lo <= hi <= n,
            n == s@.len(),
            forall|j: int| 0 <= j < lo ==> spec_is_space(s@[j]),
            lo == n || !spec_is_space(s@[lo as int]),
            forall|j: int| hi <= j < n ==> spec_is_space(s@[j]),
        decreases hi,
    {
        hi = hi - 1;
    }
    let r = s.substring_char(lo, hi);
    proof {
        let f = spec_trim_front(s@);
        assert(f == s@.skip(lo as int));
        assert forall|j: int| (hi - lo) <= j < f.len() implies spec_is_space(f[j]) by {
            assert(f[j] == s@[j + lo]);
        }
        if hi > lo {
            assert(f[hi - lo - 1] == s@[hi - 1]);
        }
        lemma_trim_back_take(f, hi - lo);
        assert(r@ =~= f.take(hi - lo));
    }
    r.to_owned()
}

/// Position of the first occurrence of `ch` at or after position `i`.
pub open spec fn spec_find_char_from(s: Seq<char>, ch: char, i: int) -> Option<int>
    decreases s.len() - i,
{
    if i < 0 || i >= s.len() {
        None
    } else if s[i] == ch {
        Some(i)
    } else {
        spec_find_char_from(s, ch, i + 1)
    }
}

/// Find the first occurrence of `ch` at or after position `from`.
pub fn find_char_from(s: &str, ch: char, from: usize) -> (r: Option<usize>)
    requires
        from <= s@.len(),
    ensures
        match r {
            Some(i) => spec_find_char_from(s@, ch, from as int) == Some(i as int) && from <= i
                < s@.len() && s@[i as int] == ch,
            None => spec_find_char_from(s@, ch, from as int) is None,
        },
{
    let n = s.unicode_len();
    let mut i = from;
    while i < n
        invariant
            from <= i <= n,
            n == s@.len(),
            spec_find_char_from(s@, ch, from as int) == spec_find_char_from(s@, ch, i as int),
        decreases n - i,
    {
        if s.get_char(i) == ch {
            return Some(i);
        }
        i = i + 1;
    }
    None
}

/// Whether `c` is an ASCII decimal digit.
pub open spec fn spec_is_digit(c: char) -> bool {
    48 <= c as u32 <= 57
}

/// Numeric value of a digit character; zero for anything else.
pub open spec fn spec_digit_val(c: char) -> nat {
    if spec_is_digit(c) {
        (c as u32 - 48) as nat
    } else {
        0
    }
}

/// Value of a digit string, most significant digit first.
pub open spec fn spec_digits_value(ds: Seq<char>) -> nat
    decreases ds.len(),
{
    if ds.len() == 0 {
        0
    } else {
        spec_digits_value(ds.drop_last()) * 10 + spec_digit_val(ds[ds.len() - 1])
    }
}

/// Whether `c` is an ASCII decimal digit.
pub fn is_digit_char(c: char) -> (r: bool)
    ensures
        r == spec_is_digit(c),
{
    let u = c as u32;
    48 <= u && u <= 57
}

/// Every character is an ASCII decimal digit.
pub open spec fn spec_all_digits(s: Seq<char>) -> bool {
    forall|i: int| 0 <= i < s.len() ==> spec_is_digit(#[trigger] s[i])
}

/// The digit part of an unsigned-integer literal: what follows an optional
/// leading `+`.
pub open spec fn spec_uint_digits(s: Seq<char>) -> Seq<char> {
    if s.len() > 0 && s[0] == '+' {
        s.drop_first()
    } else {
        s
    }
}

/// A well-formed unsigned-integer literal as `str::parse` accepts for an
/// unsigned type: an optional leading `+`, then one or more digits.
pub open spec fn spec_uint_shape(s: Seq<char>) -> bool {
    spec_uint_digits(s).len() > 0 && spec_all_digits(spec_uint_digits(s))
}

/// The numeric value of an unsigned-integer literal (digits after an
/// optional `+`).
pub open spec fn spec_uint_value(s: Seq<char>) -> nat {
    spec_digits_value(spec_uint_digits(s))
}

/// What `str::parse` gives for an unsigned type with maximum `max`:
/// the value when the literal is well formed and fits, else nothing.
pub open spec fn spec_parse_uint(s: Seq<char>, max: nat) -> Option<nat> {
    if spec_uint_shape(s) && spec_uint_value(s) <= max {
        Some(spec_uint_value(s))
    } else {
        None
    }
}

/// Appending digits never lowers the value of a digit string.
proof fn lemma_digits_value_prefix(ds: Seq<char>, k: int)
    requires
        0 <= k <= ds.len(),
    ensures
        spec_digits_value(ds.take(k)) <= spec_digits_value(ds),
    decreases ds.len() - k,
{
    if k < ds.len() {
        lemma_digits_value_prefix(ds, k + 1);
        assert(ds.take(k + 1).drop_last() =~= ds.take(k));
        assert(spec_digits_value(ds.take(k + 1)) == spec_digits_value(ds.take(k)) * 10
            + spec_digit_val(ds.take(k + 1)[k]));
    } else {
        assert(ds.take(k) =~= ds);
    }
}

/// Parse the characters of `s` in positions `lo..hi` as an unsigned integer,
/// as `str::parse::<usize>` would.
pub fn parse_usize_range(s: &str, lo: usize, hi: usize) -> (r: Option<usize>)
    requires
        lo <= hi <= s@.len(),
    ensures
        match r {
            Some(v) => spec_parse_uint(s@.subrange(lo as int, hi as int), usize::MAX as nat)
                == Some(v as nat),
            None => spec_parse_uint(s@.subrange(lo as int, hi as int), usize::MAX as nat) is None,
        },
{
    let ghost seg = s@.subrange(lo as int, hi as int);
    let mut i: usize = lo;
    if i < hi && s.get_char(i) == '+' {
        i = i + 1;
    }
    let ghost ds = spec_uint_digits(seg);
    proof {
        assert(ds =~= s@.subrange(i as int, hi as int));
    }
    if i == hi {
        proof {
            assert(ds.len() == 0);
            assert(!spec_uint_shape(seg));
        }
        return None;
    }
    let ghost dstart = i as int;
    let mut acc: usize = 0;
    while i < hi
        invariant
            0 <= dstart <= i <= hi <= s@.len(),
            seg == s@.subrange(lo as int, hi as int),
            ds == spec_uint_digits(seg),
            ds == s@.subrange(dstart, hi as int),
            forall|j: int| dstart <= j < i ==> spec_is_digit(#[trigger] s@[j]),
            acc as nat == spec_digits_value(ds.take(i - dstart)),
        decreases hi - i,
    {
        let c = s.get_char(i);
        if !is_digit_char(c) {
            proof {
                assert(ds == s@.subrange(dstart, hi as int));
                assert(s@.subrange(dstart, hi as int).len() == hi - dstart);
                assert(ds.len() == hi - dstart);
                assert(0 <= i - dstart < ds.len());
                assert(s@.subrange(dstart, hi as int)[i - dstart] == s@[dstart + (i - dstart)]);
                assert(dstart + (i - dstart) == i as int);
                assert(ds[i - dstart] == s@[i as int]);
                assert(!spec_is_digit(ds[i - dstart]));
                assert(!spec_uint_shape(seg)) by {
                    if spec_uint_shape(seg) {
                        assert(spec_is_digit(ds[i - dstart]));
                    }
                }
            }
            return None;
        }
        let d = (c as u32 - 48) as usize;
        if acc > (usize::MAX - d) / 10 {
            proof {
                let k = i - dstart + 1;
                assert(ds.take(k).drop_last() =~= ds.take(k - 1));
                assert(ds.take(k)[k - 1] == s@[i as int]);
                assert(spec_digits_value(ds.take(k)) == acc as nat * 10 + d as nat);
                assert(acc as nat * 10 + d as nat > usize::MAX as nat) by (nonlinear_arith)
                    requires
                        acc > (usize::MAX - d) / 10,
                        d <= 9,
                        acc <= usize::MAX,
                        d <= usize::MAX,
                ;
                lemma_digits_value_prefix(ds, k);
                assert(spec_uint_value(seg) == spec_digits_value(ds));
            }
            return None;
        }
        proof {
            assert(acc * 10 + d <= usize::MAX) by (nonlinear_arith)
                requires
                    acc <= (usize::MAX - d) / 10,
                    d <= 9,
                    d <= usize::MAX,
            ;
            let k = i - dstart + 1;
            assert(ds.take(k).drop_last() =~= ds.take(k - 1));
            assert(ds.take(k)[k - 1] == s@[i as int]);
        }
        acc = acc * 10 + d;
        i = i + 1;
    }
    proof {
        assert(ds.take(hi - dstart) =~= ds);
        assert(spec_uint_shape(seg));
        assert(spec_uint_value(seg) == spec_digits_value(ds));
    }
    Some(acc)
}

/// Parse a whole string as `str::parse::<u32>` would.
pub fn parse_u32_str(s: &str) -> (r: Option<u32>)
    ensures
        match r {
            Some(v) => spec_parse_uint(s@, u32::MAX as nat) == Some(v as nat),
            None => spec_parse_uint(s@, u32::MAX as nat) is None,
        },
{
    let n = s.unicode_len();
    proof {
        assert(s@.subrange(0, n as int) =~= s@);
    }
    match parse_usize_range(s, 0, n) {
        None => None,
        Some(v) => {
            if v > u32::MAX as usize {
                None
            } else {
                Some(v as u32)
            }
        },
    }
}

} // verus!
