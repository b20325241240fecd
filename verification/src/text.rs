//! Text helpers shared by the parsers of this crate: Unicode whitespace
//! trimming, ASCII case folding, decimal integers in both directions.

use vstd::prelude::*;

verus! {

// ── Characters ──────────────────────────────────────────────────────────

/// The Unicode `White_Space` characters (what `char::is_whitespace` accepts).
pub open spec fn is_space(c: char) -> bool {
    let u = c as u32;
    ||| 0x09 <= u <= 0x0d
    ||| u == 0x20
    ||| u == 0x85
    ||| u == 0xa0
    ||| u == 0x1680
    ||| 0x2000 <= u <= 0x200a
    ||| u == 0x2028
    ||| u == 0x2029
    ||| u == 0x202f
    ||| u == 0x205f
    ||| u == 0x3000
}

pub fn char_is_space(c: char) -> (b: bool)
    ensures
        b == is_space(c),
{
    let u = c as u32;
    (0x09 <= u && u <= 0x0d) || u == 0x20 || u == 0x85 || u == 0xa0 || u == 0x1680 || (0x2000
        <= u && u <= 0x200a) || u == 0x2028 || u == 0x2029 || u == 0x202f || u == 0x205f || u
        == 0x3000
}

pub open spec fn is_digit(c: char) -> bool {
    '0' <= c && c <= '9'
}

pub open spec fn digit_value(c: char) -> int {
    (c as u32) - ('0' as u32)
}

pub open spec fn is_ascii_upper(c: char) -> bool {
    'A' <= c && c <= 'Z'
}

/// ASCII lowercase of one character; every other character is unchanged.
pub open spec fn lower_char(c: char) -> char {
    if is_ascii_upper(c) {
        ((c as u32) + 32) as char
    } else {
        c
    }
}

/// ASCII lowercase of a string (what `str::to_ascii_lowercase` computes).
pub open spec fn lower(s: Seq<char>) -> Seq<char> {
    Seq::new(s.len(), |i: int| lower_char(s[i]))
}

pub open spec fn is_ascii_alnum(c: char) -> bool {
    ||| '0' <= c && c <= '9'
    ||| 'a' <= c && c <= 'z'
    ||| 'A' <= c && c <= 'Z'
}

// ── Reading a string ────────────────────────────────────────────────────

/// The characters of `s`, in order.
pub fn chars_of(s: &str) -> (v: Vec<char>)
    ensures
        v@ == s@,
{
    let n = s.unicode_len();
    let mut v: Vec<char> = Vec::new();
    let mut i: usize = 0;
    while i < n
        invariant
            n == s@.len(),
            i <= n,
            v@ == s@.subrange(0, i as int),
        decreases n - i,
    {
        let c = s.get_char(i);
        v.push(c);
        i = i + 1;
        assert(v@ =~= s@.subrange(0, i as int));
    }
    assert(v@ =~= s@);
    v
}

// ── Trimming ────────────────────────────────────────────────────────────

/// Number of leading whitespace characters of `s`.
pub open spec fn lead_len(s: Seq<char>) -> nat
    decreases s.len(),
{
    if s.len() > 0 && is_space(s[0]) {
        1 + lead_len(s.drop_first())
    } else {
        0
    }
}

/// Number of trailing whitespace characters of `s`.
pub open spec fn tail_len(s: Seq<char>) -> nat
    decreases s.len(),
{
    if s.len() > 0 && is_space(s.last()) {
        1 + tail_len(s.drop_last())
    } else {
        0
    }
}

/// `s` without leading and trailing whitespace (what `str::trim` returns).
pub open spec fn trim(s: Seq<char>) -> Seq<char> {
    let a = s.subrange(lead_len(s) as int, s.len() as int);
    a.subrange(0, a.len() - tail_len(a))
}

/// The leading run counted by `lead_len` is all whitespace and stops at
/// the first other character.
pub proof fn lemma_lead_len(s: Seq<char>)
    ensures
        lead_len(s) <= s.len(),
        forall|i: int| 0 <= i < lead_len(s) ==> is_space(#[trigger] s[i]),
        lead_len(s) < s.len() ==> !is_space(s[lead_len(s) as int]),
    decreases s.len(),
{
    if s.len() > 0 && is_space(s[0]) {
        lemma_lead_len(s.drop_first());
        assert forall|i: int| 0 <= i < lead_len(s) implies is_space(#[trigger] s[i]) by {
            if i > 0 {
                assert(s[i] == s.drop_first()[i - 1]);
            }
        }
    }
}

/// The trailing run counted by `tail_len` is all whitespace and stops at
/// the last other character.
pub proof fn lemma_tail_len(s: Seq<char>)
    ensures
        tail_len(s) <= s.len(),
        forall|i: int| s.len() - tail_len(s) <= i < s.len() ==> is_space(#[trigger] s[i]),
        tail_len(s) < s.len() ==> !is_space(s[s.len() - tail_len(s) - 1]),
    decreases s.len(),
{
    if s.len() > 0 && is_space(s.last()) {
        lemma_tail_len(s.drop_last());
        assert forall|i: int| s.len() - tail_len(s) <= i < s.len() implies is_space(
            #[trigger] s[i],
        ) by {
            if i < s.len() - 1 {
                assert(s[i] == s.drop_last()[i]);
            }
        }
    }
}

/// `lead_len` is determined by the first non-space position.
proof fn lemma_lead_len_unique(s: Seq<char>, k: int)
    requires
        0 <= k <= s.len(),
        forall|i: int| 0 <= i < k ==> is_space(#[trigger] s[i]),
        k < s.len() ==> !is_space(s[k]),
    ensures
        lead_len(s) == k,
    decreases s.len(),
{
    if k > 0 {
        assert(is_space(s[0]));
        let t = s.drop_first();
        assert forall|i: int| 0 <= i < k - 1 implies is_space(#[trigger] t[i]) by {
            assert(t[i] == s[i + 1]);
        }
        if k - 1 < t.len() {
            assert(t[k - 1] == s[k]);
        }
        lemma_lead_len_unique(t, k - 1);
    } else {
        if s.len() > 0 {
            assert(!is_space(s[0]));
        }
    }
}

/// `tail_len` is determined by the last non-space position.
proof fn lemma_tail_len_unique(s: Seq<char>, k: int)
    requires
        0 <= k <= s.len(),
        forall|i: int| s.len() - k <= i < s.len() ==> is_space(#[trigger] s[i]),
        k < s.len() ==> !is_space(s[s.len() - k - 1]),
    ensures
        tail_len(s) == k,
    decreases s.len(),
{
    if k > 0 {
        assert(is_space(s[s.len() - 1]));
        let t = s.drop_last();
        assert forall|i: int| t.len() - (k - 1) <= i < t.len() implies is_space(#[trigger] t[i]) by {
            assert(t[i] == s[i]);
        }
        if k - 1 < t.len() {
            assert(t[t.len() - (k - 1) - 1] == s[s.len() - k - 1]);
        }
        lemma_tail_len_unique(t, k - 1);
    } else {
        if s.len() > 0 {
            assert(!is_space(s.last()));
        }
    }
}

/// Positions `[start, end)` of `s` that survive trimming.
pub fn trim_bounds(s: &Vec<char>) -> (r: (usize, usize))
    ensures
        r.0 <= r.1 <= s@.len(),
        s@.subrange(r.0 as int, r.1 as int) == trim(s@),
{
    let n = s.len();
    let mut a: usize = 0;
    while a < n && char_is_space(s[a])
        invariant
            a <= n,
            n == s@.len(),
            forall|i: int| 0 <= i < a ==> is_space(#[trigger] s@[i]),
        decreases n - a,
    {
        a = a + 1;
    }
    proof {
        lemma_lead_len_unique(s@, a as int);
    }
    let mut b: usize = n;
    while b > a && char_is_space(s[b - 1])
        invariant
            a <= b <= n,
            n == s@.len(),
            forall|i: int| b <= i < n ==> is_space(#[trigger] s@[i]),
        decreases b - a,
    {
        b = b - 1;
    }
    proof {
        let t = s@.subrange(a as int, n as int);
        let k = (n - b) as int;
        assert forall|i: int| t.len() - k <= i < t.len() implies is_space(#[trigger] t[i]) by {
            assert(t[i] == s@[a + i]);
        }
        if k < t.len() {
            assert(t[t.len() - k - 1] == s@[b - 1]);
        }
        lemma_tail_len_unique(t, k);
        assert(s@.subrange(a as int, b as int) =~= t.subrange(0, t.len() - k));
    }
    (a, b)
}

/// The characters of `s` with surrounding whitespace removed.
pub fn trimmed_chars(s: &str) -> (v: Vec<char>)
    ensures
        v@ == trim(s@),
{
    let all = chars_of(s);
    let (a, b) = trim_bounds(&all);
    let mut v: Vec<char> = Vec::new();
    let mut i = a;
    while i < b
        invariant
            a <= i <= b <= all@.len(),
            v@ == all@.subrange(a as int, i as int),
        decreases b - i,
    {
        v.push(all[i]);
        i = i + 1;
        assert(v@ =~= all@.subrange(a as int, i as int));
    }
    v
}

/// `s` with surrounding whitespace removed, as an owned string.
pub fn trim_string(s: &str) -> (t: String)
    ensures
        t@ == trim(s@),
{
    let n = s.unicode_len();
    let all = chars_of(s);
    let (a, b) = trim_bounds(&all);
    let sub = s.substring_char(a, b);
    String::from_str(sub)
}

// ── Comparisons ─────────────────────────────────────────────────────────

/// Whether `v` spells exactly the string `t`.
pub fn chars_eq_str(v: &Vec<char>, t: &str) -> (b: bool)
    ensures
        b == (v@ == t@),
{
    let n = t.unicode_len();
    if v.len() != n {
        return false;
    }
    let mut i: usize = 0;
    while i < n
        invariant
            n == t@.len(),
            n == v@.len(),
            i <= n,
            forall|j: int| 0 <= j < i ==> v@[j] == t@[j],
        decreases n - i,
    {
        if v[i] != t.get_char(i) {
            return false;
        }
        i = i + 1;
    }
    assert(v@ =~= t@);
    true
}

/// Whether two strings are equal.
pub fn str_eq(a: &str, b: &str) -> (r: bool)
    ensures
        r == (a@ == b@),
{
    let v = chars_of(a);
    chars_eq_str(&v, b)
}

/// Whether the ASCII lowercase of `v` spells `t`.
pub fn lower_eq_str(v: &Vec<char>, t: &str) -> (b: bool)
    ensures
        b == (lower(v@) == t@),
{
    let n = t.unicode_len();
    if v.len() != n {
        assert(lower(v@).len() != t@.len());
        return false;
    }
    let mut i: usize = 0;
    while i < n
        invariant
            n == t@.len(),
            n == v@.len(),
            i <= n,
            forall|j: int| 0 <= j < i ==> lower_char(v@[j]) == t@[j],
        decreases n - i,
    {
        let c = v[i];
        let l = if 'A' <= c && c <= 'Z' {
            ((c as u32) + 32) as u8 as char
        } else {
            c
        };
        assert(l == lower_char(c)) by {
            if is_ascii_upper(c) {
                assert(((c as u32) + 32) < 256);
            }
        }
        if l != t.get_char(i) {
            assert(lower(v@)[i as int] != t@[i as int]);
            return false;
        }
        i = i + 1;
    }
    assert(lower(v@) =~= t@);
    true
}

/// Whether `s` ends with `suffix`.
pub open spec fn ends_with(s: Seq<char>, suffix: Seq<char>) -> bool {
    suffix.len() <= s.len() && s.subrange(s.len() - suffix.len(), s.len() as int) == suffix
}

pub fn chars_ends_with(s: &Vec<char>, suffix: &Vec<char>) -> (b: bool)
    ensures
        b == ends_with(s@, suffix@),
{
    let n = s.len();
    let m = suffix.len();
    if m > n {
        return false;
    }
    let mut i: usize = 0;
    while i < m
        invariant
            n == s@.len(),
            m == suffix@.len(),
            m <= n,
            i <= m,
            forall|j: int| 0 <= j < i ==> s@[n - m + j] == suffix@[j],
        decreases m - i,
    {
        if s[n - m + i] != suffix[i] {
            assert(s@.subrange(n - m, n as int)[i as int] != suffix@[i as int]);
            return false;
        }
        i = i + 1;
    }
    assert(s@.subrange(n - m, n as int) =~= suffix@);
    true
}

/// Whether `s` contains the character `c`.
pub fn chars_contain(s: &Vec<char>, c: char) -> (b: bool)
    ensures
        b == s@.contains(c),
{
    let mut i: usize = 0;
    while i < s.len()
        invariant
            i <= s@.len(),
            forall|j: int| 0 <= j < i ==> s@[j] != c,
        decreases s.len() - i,
    {
        if s[i] == c {
            assert(s@[i as int] == c);
            return true;
        }
        i = i + 1;
    }
    false
}

// ── Decimal integers: parsing ───────────────────────────────────────────

/// Why a decimal integer could not be read (the kinds `ParseIntError` reports).
#[derive(Debug, Clone, Copy, PartialEq, Eq)]
pub enum IntErrorKind {
    Empty,
    InvalidDigit,
    PosOverflow,
    NegOverflow,
}

/// Outcome of scanning the digit run `d` left to right, accumulating the
/// magnitude and stopping at the first failure: a non-digit, or a magnitude
/// above `bound`.
pub open spec fn scan_digits(d: Seq<char>, bound: int) -> Result<int, IntErrorKind>
    decreases d.len(),
{
    if d.len() == 0 {
        Ok(0)
    } else {
        match scan_digits(d.drop_last(), bound) {
            Err(e) => Err(e),
            Ok(v) => if !is_digit(d.last()) {
                Err(IntErrorKind::InvalidDigit)
            } else if v * 10 + digit_value(d.last()) > bound {
                Err(IntErrorKind::PosOverflow)
            } else {
                Ok(v * 10 + digit_value(d.last()))
            },
        }
    }
}

/// What `str::parse` returns for a signed integer type whose values are
/// `[min, max]` (with `min == -max - 1`): an optional sign, then at least one
/// digit, first failure wins.
pub open spec fn parse_int(s: Seq<char>, min: int, max: int) -> Result<int, IntErrorKind> {
    if s.len() == 0 {
        Err(IntErrorKind::Empty)
    } else if (s[0] == '+' || s[0] == '-') && s.len() == 1 {
        Err(IntErrorKind::InvalidDigit)
    } else if s[0] == '-' {
        match scan_digits(s.drop_first(), -min) {
            Ok(v) => Ok(-v),
            Err(IntErrorKind::PosOverflow) => Err(IntErrorKind::NegOverflow),
            Err(e) => Err(e),
        }
    } else if s[0] == '+' {
        scan_digits(s.drop_first(), max)
    } else {
        scan_digits(s, max)
    }
}

proof fn lemma_scan_prefix(d: Seq<char>, i: int, bound: int)
    requires
        0 <= i < d.len(),
    ensures
        scan_digits(d.subrange(0, i + 1), bound) == (match scan_digits(d.subrange(0, i), bound) {
            Err(e) => Err(e),
            Ok(v) => if !is_digit(d[i]) {
                Err(IntErrorKind::InvalidDigit)
            } else if v * 10 + digit_value(d[i]) > bound {
                Err(IntErrorKind::PosOverflow)
            } else {
                Ok(v * 10 + digit_value(d[i]))
            },
        }),
{
    assert(d.subrange(0, i + 1).drop_last() =~= d.subrange(0, i));
}

proof fn lemma_scan_stays_err(d: Seq<char>, i: int, bound: int)
    requires
        0 <= i <= d.len(),
        scan_digits(d.subrange(0, i), bound) is Err,
    ensures
        scan_digits(d, bound) == scan_digits(d.subrange(0, i), bound),
    decreases d.len() - i,
{
    if i < d.len() {
        lemma_scan_prefix(d, i, bound);
        lemma_scan_stays_err(d, i + 1, bound);
    } else {
        assert(d.subrange(0, i) =~= d);
    }
}

/// Scan the digit run `d[from..]` with magnitude bound `bound` (at most `2^63`).
fn scan_digits_exec(d: &Vec<char>, from: usize, bound: u64) -> (r: Result<u64, IntErrorKind>)
    requires
        from <= d@.len(),
        bound <= 0x8000_0000_0000_0000u64,
    ensures
        match scan_digits(d@.subrange(from as int, d@.len() as int), bound as int) {
            Ok(v) => r == Ok::<u64, IntErrorKind>(v as u64),
            Err(e) => r == Err::<u64, IntErrorKind>(e),
        },
{
    let ghost t = d@.subrange(from as int, d@.len() as int);
    let n = d.len();
    let mut acc: u64 = 0;
    let mut i: usize = from;
    while i < n
        invariant
            from <= i <= n,
            n == d@.len(),
            t == d@.subrange(from as int, n as int),
            bound <= 0x8000_0000_0000_0000u64,
            acc <= bound,
            scan_digits(t.subrange(0, i - from), bound as int) == Ok::<int, IntErrorKind>(
                acc as int,
            ),
        decreases n - i,
    {
        let c = d[i];
        proof {
            lemma_scan_prefix(t, i - from, bound as int);
            assert(t[i - from] == c);
        }
        if !('0' <= c && c <= '9') {
            proof {
                lemma_scan_stays_err(t, i - from + 1, bound as int);
            }
            return Err(IntErrorKind::InvalidDigit);
        }
        let dv = (c as u32 - '0' as u32) as u64;
        if dv > bound || acc > (bound - dv) / 10 {
            proof {
                if dv <= bound {
                    let q = (bound - dv) / 10;
                    assert(acc * 10 + dv > bound) by (nonlinear_arith)
                        requires
                            acc > q,
                            q == (bound - dv) / 10,
                            dv <= bound,
                    ;
                }
                lemma_scan_stays_err(t, i - from + 1, bound as int);
            }
            return Err(IntErrorKind::PosOverflow);
        }
        proof {
            let q = (bound - dv) / 10;
            assert(acc * 10 + dv <= bound) by (nonlinear_arith)
                requires
                    acc <= q,
                    q == (bound - dv) / 10,
                    dv <= bound,
            ;
        }
        acc = acc * 10 + dv;
        i = i + 1;
    }
    assert(t.subrange(0, n - from) =~= t);
    Ok(acc)
}

/// Parse a signed decimal integer the way `str::parse::<i64>` does.
pub fn parse_i64(s: &Vec<char>) -> (r: Result<i64, IntErrorKind>)
    ensures
        match parse_int(s@, i64::MIN as int, i64::MAX as int) {
            Ok(v) => r == Ok::<i64, IntErrorKind>(v as i64) && i64::MIN <= v <= i64::MAX,
            Err(e) => r == Err::<i64, IntErrorKind>(e),
        },
{
    parse_signed(s, 0x8000_0000_0000_0000u64, 0x7fff_ffff_ffff_ffffu64)
}

/// Parse a signed decimal integer the way `str::parse::<i32>` does.
pub fn parse_i32(s: &Vec<char>) -> (r: Result<i32, IntErrorKind>)
    ensures
        match parse_int(s@, i32::MIN as int, i32::MAX as int) {
            Ok(v) => r == Ok::<i32, IntErrorKind>(v as i32) && i32::MIN <= v <= i32::MAX,
            Err(e) => r == Err::<i32, IntErrorKind>(e),
        },
{
    let r = parse_signed(s, 0x8000_0000u64, 0x7fff_ffffu64);
    match r {
        Ok(v) => Ok(v as i32),
        Err(e) => Err(e),
    }
}

proof fn lemma_scan_bounded(d: Seq<char>, bound: int)
    requires
        bound >= 0,
    ensures
        scan_digits(d, bound) matches Ok(v) ==> 0 <= v <= bound,
    decreases d.len(),
{
    if d.len() > 0 {
        lemma_scan_bounded(d.drop_last(), bound);
    }
}

fn parse_signed(s: &Vec<char>, neg_bound: u64, pos_bound: u64) -> (r: Result<i64, IntErrorKind>)
    requires
        neg_bound == pos_bound + 1,
        neg_bound <= 0x8000_0000_0000_0000u64,
    ensures
        match parse_int(s@, -(neg_bound as int), pos_bound as int) {
            Ok(v) => r == Ok::<i64, IntErrorKind>(v as i64) && -(neg_bound as int) <= v
                <= pos_bound,
            Err(e) => r == Err::<i64, IntErrorKind>(e),
        },
{
    let n = s.len();
    if n == 0 {
        return Err(IntErrorKind::Empty);
    }
    let c0 = s[0];
    if (c0 == '+' || c0 == '-') && n == 1 {
        return Err(IntErrorKind::InvalidDigit);
    }
    proof {
        assert(s@.drop_first() =~= s@.subrange(1, n as int));
        assert(s@ =~= s@.subrange(0, n as int));
        lemma_scan_bounded(s@.drop_first(), neg_bound as int);
        lemma_scan_bounded(s@.drop_first(), pos_bound as int);
        lemma_scan_bounded(s@, pos_bound as int);
    }
    if c0 == '-' {
        match scan_digits_exec(s, 1, neg_bound) {
            Ok(v) => {
                if v == 0x8000_0000_0000_0000u64 {
                    Ok(i64::MIN)
                } else {
                    Ok(-(v as i64))
                }
            },
            Err(IntErrorKind::PosOverflow) => Err(IntErrorKind::NegOverflow),
            Err(e) => Err(e),
        }
    } else if c0 == '+' {
        match scan_digits_exec(s, 1, pos_bound) {
            Ok(v) => Ok(v as i64),
            Err(e) => Err(e),
        }
    } else {
        match scan_digits_exec(s, 0, pos_bound) {
            Ok(v) => Ok(v as i64),
            Err(e) => Err(e),
        }
    }
}

/// The message `ParseIntError` displays for each kind.
pub open spec fn int_error_text(k: IntErrorKind) -> Seq<char> {
    match k {
        IntErrorKind::Empty => "cannot parse integer from empty string"@,
        IntErrorKind::InvalidDigit => "invalid digit found in string"@,
        IntErrorKind::PosOverflow => "number too large to fit in target type"@,
        IntErrorKind::NegOverflow => "number too small to fit in target type"@,
    }
}

pub fn int_error_message(k: IntErrorKind) -> (s: &'static str)
    ensures
        s@ == int_error_text(k),
{
    match k {
        IntErrorKind::Empty => "cannot parse integer from empty string",
        IntErrorKind::InvalidDigit => "invalid digit found in string",
        IntErrorKind::PosOverflow => "number too large to fit in target type",
        IntErrorKind::NegOverflow => "number too small to fit in target type",
    }
}

// ── Decimal integers: printing ──────────────────────────────────────────

pub open spec fn digit_char(d: int) -> char {
    if d == 0 {
        '0'
    } else if d == 1 {
        '1'
    } else if d == 2 {
        '2'
    } else if d == 3 {
        '3'
    } else if d == 4 {
        '4'
    } else if d == 5 {
        '5'
    } else if d == 6 {
        '6'
    } else if d == 7 {
        '7'
    } else if d == 8 {
        '8'
    } else {
        '9'
    }
}

/// Decimal digits of a natural number, most significant first.
pub open spec fn nat_text(n: nat) -> Seq<char>
    decreases n,
{
    if n < 10 {
        seq![digit_char(n as int)]
    } else {
        nat_text((n / 10) as nat).push(digit_char((n % 10) as int))
    }
}

/// Decimal text of an integer, with a leading `-` when negative (how
/// integers are displayed).
pub open spec fn int_text(n: int) -> Seq<char> {
    if n < 0 {
        seq!['-'] + nat_text((-n) as nat)
    } else {
        nat_text(n as nat)
    }
}

fn digit_str(d: u64) -> (s: &'static str)
    requires
        d < 10,
    ensures
        s@ == seq![digit_char(d as int)],
{
    proof {
        reveal_strlit("0");
        reveal_strlit("1");
        reveal_strlit("2");
        reveal_strlit("3");
        reveal_strlit("4");
        reveal_strlit("5");
        reveal_strlit("6");
        reveal_strlit("7");
        reveal_strlit("8");
        reveal_strlit("9");
    }
    if d == 0 {
        "0"
    } else if d == 1 {
        "1"
    } else if d == 2 {
        "2"
    } else if d == 3 {
        "3"
    } else if d == 4 {
        "4"
    } else if d == 5 {
        "5"
    } else if d == 6 {
        "6"
    } else if d == 7 {
        "7"
    } else if d == 8 {
        "8"
    } else {
        "9"
    }
}

/// Append the decimal digits of `n` to `out`.
pub fn push_nat(out: &mut String, n: u64)
    ensures
        final(out)@ == old(out)@ + nat_text(n as nat),
    decreases n,
{
    if n < 10 {
        out.append(digit_str(n));
    } else {
        push_nat(out, n / 10);
        out.append(digit_str(n % 10));
        proof {
            assert(old(out)@ + nat_text((n / 10) as nat) + seq![digit_char((n % 10) as int)]
                =~= old(out)@ + nat_text(n as nat));
        }
    }
}

/// Append the decimal text of `n` to `out`.
pub fn push_int(out: &mut String, n: i64)
    ensures
        final(out)@ == old(out)@ + int_text(n as int),
{
    if n < 0 {
        proof {
            reveal_strlit("-");
        }
        out.append("-");
        let m: u64 = if n == i64::MIN {
            0x8000_0000_0000_0000u64
        } else {
            (-n) as u64
        };
        push_nat(out, m);
        proof {
            assert(old(out)@ + seq!['-'] + nat_text(m as nat) =~= old(out)@ + int_text(n as int));
        }
    } else {
        push_nat(out, n as u64);
    }
}

/// The decimal text of `n`.
pub fn int_string(n: i64) -> (s: String)
    ensures
        s@ == int_text(n as int),
{
    let mut s = String::new();
    push_int(&mut s, n);
    assert(s@ =~= int_text(n as int));
    s
}

/// A copy of `s` as an owned string.
pub fn owned(s: &str) -> (t: String)
    ensures
        t@ == s@,
{
    String::from_str(s)
}

/// `a` followed by `b`.
pub fn concat2(a: &str, b: &str) -> (t: String)
    ensures
        t@ == a@ + b@,
{
    let mut t = String::from_str(a);
    t.append(b);
    t
}

/// `a`, `b`, `c` in order.
pub fn concat3(a: &str, b: &str, c: &str) -> (t: String)
    ensures
        t@ == a@ + b@ + c@,
{
    let mut t = String::from_str(a);
    t.append(b);
    t.append(c);
    t
}

/// An optional string as optional text.
pub open spec fn opt_text(o: Option<String>) -> Option<Seq<char>> {
    match o {
        Some(s) => Some(s@),
        None => None,
    }
}

/// A copy of an optional string.
pub fn copy_opt(o: &Option<String>) -> (r: Option<String>)
    ensures
        r == *o,
{
    match o {
        Some(s) => Some(s.clone()),
        None => None,
    }
}


// ── Replacing ───────────────────────────────────────────────────────────

/// `s` with every occurrence of the non-empty `from` replaced by `to`,
/// scanning left to right without overlaps (what `str::replace` does).
pub open spec fn replace_all(s: Seq<char>, from: Seq<char>, to: Seq<char>) -> Seq<char>
    decreases s.len(),
{
    if from.len() == 0 || s.len() < from.len() {
        s
    } else if s.subrange(0, from.len() as int) == from {
        to + replace_all(s.subrange(from.len() as int, s.len() as int), from, to)
    } else {
        seq![s[0]] + replace_all(s.drop_first(), from, to)
    }
}

/// Whether `v[i..]` starts with `p`.
fn matches_at(v: &Vec<char>, i: usize, p: &Vec<char>) -> (b: bool)
    requires
        i <= v@.len(),
    ensures
        b == (i + p@.len() <= v@.len() && v@.subrange(i as int, i + p@.len()) == p@),
{
    if p.len() > v.len() - i {
        return false;
    }
    let mut k: usize = 0;
    while k < p.len()
        invariant
            k <= p@.len(),
            i <= v@.len(),
            i + p@.len() <= v@.len(),
            v@.len() <= usize::MAX,
            forall|j: int| 0 <= j < k ==> v@[i + j] == p@[j],
        decreases p.len() - k,
    {
        if v[i + k] != p[k] {
            assert(v@.subrange(i as int, i + p@.len())[k as int] != p@[k as int]);
            return false;
        }
        k = k + 1;
    }
    assert(v@.subrange(i as int, i + p@.len()) =~= p@);
    true
}

/// `s` with every occurrence of the non-empty `from` replaced by `to`.
pub fn replace_str(s: &str, from: &str, to: &str) -> (r: String)
    requires
        from@.len() > 0,
    ensures
        r@ == replace_all(s@, from@, to@),
{
    let v = chars_of(s);
    let p = chars_of(from);
    let n = v.len();
    let m = p.len();
    let mut out = String::new();
    let mut last: usize = 0;
    let mut i: usize = 0;
    proof {
        assert(s@.subrange(0, n as int) =~= s@);
        assert(s@.subrange(0, 0) =~= Seq::<char>::empty());
        assert(out@ + s@.subrange(0, 0) + s@.subrange(0, n as int) =~= s@) by {
            assert(out@ =~= Seq::<char>::empty());
        }
    }
    while i < n
        invariant
            v@ == s@,
            p@ == from@,
            n == v@.len(),
            m == p@.len(),
            m > 0,
            last <= i <= n,
            replace_all(s@, from@, to@) == out@ + s@.subrange(last as int, i as int) + replace_all(
                s@.subrange(i as int, n as int),
                from@,
                to@,
            ),
        decreases n - i,
    {
        let ghost rest = s@.subrange(i as int, n as int);
        if matches_at(&v, i, &p) {
            proof {
                assert(rest.subrange(0, m as int) =~= s@.subrange(i as int, i + m));
                assert(rest.subrange(m as int, rest.len() as int) =~= s@.subrange(i + m, n as int));
                assert(replace_all(rest, from@, to@) == to@ + replace_all(
                    s@.subrange(i + m, n as int),
                    from@,
                    to@,
                ));
            }
            let ghost out0 = out@;
            let piece = s.substring_char(last, i);
            out.append(piece);
            out.append(to);
            proof {
                assert(out@ == out0 + s@.subrange(last as int, i as int) + to@);
                assert(s@.subrange(i + m, i + m) =~= Seq::<char>::empty());
                assert(replace_all(s@, from@, to@) =~= out@ + s@.subrange(i + m, i + m) + replace_all(
                    s@.subrange(i + m, n as int),
                    from@,
                    to@,
                ));
            }
            i = i + m;
            last = i;
        } else {
            proof {
                if rest.len() >= from@.len() {
                    assert(rest.subrange(0, m as int) =~= s@.subrange(i as int, i + m));
                    assert(rest.drop_first() =~= s@.subrange(i + 1, n as int));
                    assert(s@.subrange(last as int, i + 1) =~= s@.subrange(last as int, i as int) + seq![rest[0]]);
                } else {
                    assert(replace_all(rest, from@, to@) == rest);
                    assert(rest.drop_first() =~= s@.subrange(i + 1, n as int));
                    assert(replace_all(rest.drop_first(), from@, to@) == rest.drop_first());
                    assert(s@.subrange(last as int, i + 1) =~= s@.subrange(last as int, i as int) + seq![rest[0]]);
                    assert(rest =~= seq![rest[0]] + rest.drop_first());
                }
            }
            i = i + 1;
        }
    }
    proof {
        assert(s@.subrange(n as int, n as int) =~= Seq::<char>::empty());
        assert(replace_all(Seq::<char>::empty(), from@, to@) == Seq::<char>::empty());
    }
    let tail = s.substring_char(last, n);
    out.append(tail);
    proof {
        assert(out@ =~= replace_all(s@, from@, to@));
    }
    out
}

} // verus!
