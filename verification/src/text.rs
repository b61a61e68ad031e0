//! Small string utilities used across the crate.
use vstd::prelude::*;

verus! {

/// Character-wise equality of two strings.
pub fn str_eq(a: &str, b: &str) -> (res: bool)
    ensures
        res == (a@ == b@),
{
    let n = a.unicode_len();
    let m = b.unicode_len();
    if n != m {
        return false;
    }
    let mut i: usize = 0;
    while i < n
        invariant
            n == a@.len(),
            m == b@.len(),
            n == m,
            i <= n,
            forall|j: int| 0 <= j < i ==> a@[j] == b@[j],
        decreases n - i,
    {
        if a.get_char(i) != b.get_char(i) {
            return false;
        }
        i = i + 1;
    }
    assert(a@ =~= b@);
    true
}

/// `true` when `prefix` is a prefix of `s`.
pub open spec fn is_prefix(prefix: Seq<char>, s: Seq<char>) -> bool {
    prefix.len() <= s.len() && s.subrange(0, prefix.len() as int) == prefix
}

/// Whether `s` starts with `prefix`.
pub fn starts_with(s: &str, prefix: &str) -> (res: bool)
    ensures
        res == is_prefix(prefix@, s@),
{
    let n = s.unicode_len();
    let m = prefix.unicode_len();
    if m > n {
        return false;
    }
    let mut i: usize = 0;
    while i < m
        invariant
            n == s@.len(),
            m == prefix@.len(),
            m <= n,
            i <= m,
            forall|j: int| 0 <= j < i ==> s@[j] == prefix@[j],
        decreases m - i,
    {
        if s.get_char(i) != prefix.get_char(i) {
            assert(s@.subrange(0, m as int)[i as int] == s@[i as int]);
            return false;
        }
        i = i + 1;
    }
    assert(s@.subrange(0, m as int) =~= prefix@);
    true
}

/// `true` when `needle` occurs in `s` at position `at`.
pub open spec fn occurs_at(s: Seq<char>, needle: Seq<char>, at: int) -> bool {
    0 <= at && at + needle.len() <= s.len() && s.subrange(at, at + needle.len()) == needle
}

/// `true` when `needle` occurs somewhere in `s`.
pub open spec fn contains_seq(s: Seq<char>, needle: Seq<char>) -> bool {
    exists|at: int| occurs_at(s, needle, at)
}

fn occurs_at_exec(s: &str, needle: &str, at: usize, n: usize, m: usize) -> (res: bool)
    requires
        n == s@.len(),
        m == needle@.len(),
        at + m <= n,
    ensures
        res == occurs_at(s@, needle@, at as int),
{
    let mut j: usize = 0;
    while j < m
        invariant
            n == s@.len(),
            m == needle@.len(),
            at + m <= n,
            j <= m,
            forall|k: int| 0 <= k < j ==> s@[at + k] == needle@[k],
        decreases m - j,
    {
        if s.get_char(at + j) != needle.get_char(j) {
            assert(s@.subrange(at as int, at + m)[j as int] == s@[at + j]);
            return false;
        }
        j = j + 1;
    }
    assert(s@.subrange(at as int, at + m) =~= needle@);
    true
}

/// Whether `needle` occurs as a substring of `s`.
pub fn contains(s: &str, needle: &str) -> (res: bool)
    ensures
        res == contains_seq(s@, needle@),
{
    let n = s.unicode_len();
    let m = needle.unicode_len();
    if m > n {
        return false;
    }
    if m == 0 {
        assert(s@.subrange(0, 0) =~= needle@);
        assert(occurs_at(s@, needle@, 0));
        return true;
    }
    let mut at: usize = 0;
    let last: usize = n - m;
    while at <= last
        invariant
            n == s@.len(),
            m == needle@.len(),
            m <= n,
            last == n - m,
            m >= 1,
            at <= last + 1,
            forall|k: int| 0 <= k < at ==> !occurs_at(s@, needle@, k),
        decreases last + 1 - at,
    {
        if occurs_at_exec(s, needle, at, n, m) {
            return true;
        }
        at = at + 1;
    }
    assert forall|k: int| !occurs_at(s@, needle@, k) by {
        if 0 <= k && k < at {
        }
    }
    false
}

/// A fresh `String` holding the characters of `s`.
pub fn owned(s: &str) -> (res: String)
    ensures
        res@ == s@,
{
    String::from_str(s)
}

/// The concatenation of `a` and `b`.
pub fn concat2(a: &str, b: &str) -> (res: String)
    ensures
        res@ == a@ + b@,
{
    let r = String::from_str(a);
    r.concat(b)
}

/// The concatenation of `a`, `b` and `c`.
pub fn concat3(a: &str, b: &str, c: &str) -> (res: String)
    ensures
        res@ == a@ + b@ + c@,
{
    let r = String::from_str(a);
    let r = r.concat(b);
    r.concat(c)
}


/// The character of a decimal digit.
pub open spec fn digit_char(d: int) -> char {
    if d == 0 {
        '0'
    } else if d == 1 {
        '1'
    } else if d == 2 {
        '2'
    } else if d == 3 {
        '3'
    } else if d == 4 {
        '4'
    } else if d == 5 {
        '5'
    } else if d == 6 {
        '6'
    } else if d == 7 {
        '7'
    } else if d == 8 {
        '8'
    } else {
        '9'
    }
}

/// The decimal digits of a natural number, most significant first.
pub open spec fn decimal(n: nat) -> Seq<char>
    decreases n,
{
    if n < 10 {
        seq![digit_char(n as int)]
    } else {
        decimal(n / 10) + seq![digit_char((n % 10) as int)]
    }
}

/// A signed number in decimal, with a leading `-` when negative.
pub open spec fn signed_decimal(n: int) -> Seq<char> {
    if n < 0 {
        seq!['-'] + decimal((-n) as nat)
    } else {
        decimal(n as nat)
    }
}

fn digit_str(d: u64) -> (res: &'static str)
    requires
        d < 10,
    ensures
        res@ == seq![digit_char(d as int)],
{
    proof {
        reveal_strlit("0");
        reveal_strlit("1");
        reveal_strlit("2");
        reveal_strlit("3");
        reveal_strlit("4");
        reveal_strlit("5");
        reveal_strlit("6");
        reveal_strlit("7");
        reveal_strlit("8");
        reveal_strlit("9");
    }
    match d {
        0 => "0",
        1 => "1",
        2 => "2",
        3 => "3",
        4 => "4",
        5 => "5",
        6 => "6",
        7 => "7",
        8 => "8",
        _ => "9",
    }
}

/// A number written in decimal.
pub fn u64_to_string(n: u64) -> (res: String)
    ensures
        res@ == decimal(n as nat),
    decreases n,
{
    if n < 10 {
        String::from_str(digit_str(n))
    } else {
        let head = u64_to_string(n / 10);
        let r = head.concat(digit_str(n % 10));
        r
    }
}

/// A signed number written in decimal.
pub fn i64_to_string(n: i64) -> (res: String)
    ensures
        res@ == signed_decimal(n as int),
{
    if n < 0 {
        let m: u64 = (-(n + 1)) as u64 + 1;
        assert(m == -(n as int));
        let digits = u64_to_string(m);
        proof {
            reveal_strlit("-");
        }
        let r = concat2("-", digits.as_str());
        assert(r@ =~= seq!['-'] + decimal((-(n as int)) as nat));
        r
    } else {
        u64_to_string(n as u64)
    }
}


/// An optional string as an optional character sequence.
pub open spec fn opt_view(o: Option<String>) -> Option<Seq<char>> {
    match o {
        Some(s) => Some(s@),
        None => None,
    }
}


/// Append `n` in decimal.
pub fn push_u64(s: &mut String, n: u64)
    ensures
        final(s)@ == old(s)@ + decimal(n as nat),
{
    let digits = u64_to_string(n);
    s.append(digits.as_str());
}

/// The text `true` or `false`.
pub open spec fn bool_text(b: bool) -> Seq<char> {
    if b {
        "true"@
    } else {
        "false"@
    }
}

/// Append `true` or `false`.
pub fn push_bool(s: &mut String, b: bool)
    ensures
        final(s)@ == old(s)@ + bool_text(b),
{
    if b {
        s.append("true");
    } else {
        s.append("false");
    }
}

/// Why a decimal number could not be read.
#[derive(Debug, Clone, Copy, PartialEq, Eq, Structural)]
pub enum IntErrorKind {
    /// The text was empty.
    Empty,
    /// A character is not a decimal digit.
    InvalidDigit,
    /// The number does not fit in 64 bits.
    PosOverflow,
}

/// Whether `c` is one of `0` to `9`.
pub open spec fn is_digit_char(c: char) -> bool {
    '0' <= c && c <= '9'
}

/// The value of a decimal digit character.
pub open spec fn digit_of(c: char) -> int {
    (c as int) - ('0' as int)
}

/// Reading the digits `s` after `acc` has been read, from left to right:
/// the first character that is not a digit, or the first digit after which
/// the value no longer fits in 64 bits, is an error.
pub open spec fn digits_from(s: Seq<char>, acc: int) -> Result<int, IntErrorKind>
    decreases s.len(),
{
    if s.len() == 0 {
        Ok(acc)
    } else if !is_digit_char(s[0]) {
        Err(IntErrorKind::InvalidDigit)
    } else if acc * 10 + digit_of(s[0]) > u64::MAX {
        Err(IntErrorKind::PosOverflow)
    } else {
        digits_from(s.drop_first(), acc * 10 + digit_of(s[0]))
    }
}

/// How a text reads as an unsigned 64-bit number: decimal digits, with an
/// optional leading `+`.
pub open spec fn parse_u64_spec(s: Seq<char>) -> Result<int, IntErrorKind> {
    if s.len() == 0 {
        Err(IntErrorKind::Empty)
    } else if s[0] == '+' && s.len() > 1 {
        digits_from(s.drop_first(), 0)
    } else {
        digits_from(s, 0)
    }
}

/// The message of a failed number read.
pub open spec fn int_error_text(k: IntErrorKind) -> Seq<char> {
    match k {
        IntErrorKind::Empty => "cannot parse integer from empty string"@,
        IntErrorKind::InvalidDigit => "invalid digit found in string"@,
        IntErrorKind::PosOverflow => "number too large to fit in target type"@,
    }
}

impl IntErrorKind {
    /// The message of this failure.
    pub fn to_string(&self) -> (res: String)
        ensures
            res@ == int_error_text(*self),
    {
        match self {
            IntErrorKind::Empty => String::from_str("cannot parse integer from empty string"),
            IntErrorKind::InvalidDigit => String::from_str("invalid digit found in string"),
            IntErrorKind::PosOverflow => String::from_str("number too large to fit in target type"),
        }
    }
}

/// Read the characters of `s` from index `start` as decimal digits.
fn read_digits(s: &str, start: usize) -> (res: Result<u64, IntErrorKind>)
    requires
        start <= s@.len(),
    ensures
        match res {
            Ok(n) => digits_from(s@.subrange(start as int, s@.len() as int), 0) == Ok::<int, IntErrorKind>(n as int),
            Err(k) => digits_from(s@.subrange(start as int, s@.len() as int), 0) == Err::<int, IntErrorKind>(k),
        },
{
    let n = s.unicode_len();
    let mut acc: u64 = 0;
    let mut i: usize = start;
    while i < n
        invariant
            n == s@.len(),
            start <= i <= n,
            digits_from(s@.subrange(start as int, n as int), 0)
                == digits_from(s@.subrange(i as int, n as int), acc as int),
        decreases n - i,
    {
        let ghost rest = s@.subrange(i as int, n as int);
        let c = s.get_char(i);
        assert(rest[0] == c);
        assert(rest.drop_first() =~= s@.subrange(i + 1, n as int));
        if !('0' <= c && c <= '9') {
            return Err(IntErrorKind::InvalidDigit);
        }
        let d: u64 = ((c as u32) - 48) as u64;
        assert(d as int == digit_of(c));
        if acc > 1844674407370955161 || (acc == 1844674407370955161 && d > 5) {
            return Err(IntErrorKind::PosOverflow);
        }
        acc = acc * 10 + d;
        i = i + 1;
    }
    assert(s@.subrange(n as int, n as int).len() == 0);
    Ok(acc)
}

/// Read `s` as an unsigned 64-bit decimal number.
pub fn parse_u64(s: &str) -> (res: Result<u64, IntErrorKind>)
    ensures
        match res {
            Ok(n) => parse_u64_spec(s@) == Ok::<int, IntErrorKind>(n as int),
            Err(k) => parse_u64_spec(s@) == Err::<int, IntErrorKind>(k),
        },
{
    let n = s.unicode_len();
    if n == 0 {
        return Err(IntErrorKind::Empty);
    }
    if s.get_char(0) == '+' && n > 1 {
        assert(s@.drop_first() =~= s@.subrange(1, n as int));
        read_digits(s, 1)
    } else {
        assert(s@ =~= s@.subrange(0, n as int));
        read_digits(s, 0)
    }
}

proof fn lemma_digits_from_concat(a: Seq<char>, b: Seq<char>, acc: int)
    ensures
        digits_from(a + b, acc) == match digits_from(a, acc) {
            Ok(v) => digits_from(b, v),
            Err(e) => Err(e),
        },
    decreases a.len(),
{
    if a.len() > 0 {
        assert((a + b).drop_first() =~= a.drop_first() + b);
        assert((a + b)[0] == a[0]);
        lemma_digits_from_concat(a.drop_first(), b, acc * 10 + digit_of(a[0]));
    } else {
        assert(a + b =~= b);
    }
}

proof fn lemma_digit_char(d: int)
    requires
        0 <= d <= 9,
    ensures
        is_digit_char(digit_char(d)),
        digit_of(digit_char(d)) == d,
{
}

proof fn lemma_decimal_reads_back(n: nat)
    requires
        n <= u64::MAX,
    ensures
        digits_from(decimal(n), 0) == Ok::<int, IntErrorKind>(n as int),
        decimal(n).len() > 0,
        is_digit_char(decimal(n)[0]),
    decreases n,
{
    if n < 10 {
        lemma_digit_char(n as int);
        assert(decimal(n) == seq![digit_char(n as int)]);
        assert(seq![digit_char(n as int)].drop_first() =~= Seq::<char>::empty());
        assert(digits_from(Seq::<char>::empty(), n as int) == Ok::<int, IntErrorKind>(n as int));
    } else {
        let q = n / 10;
        let r = n % 10;
        assert(n == q * 10 + r);
        lemma_decimal_reads_back(q);
        lemma_digit_char(r as int);
        let last = seq![digit_char(r as int)];
        lemma_digits_from_concat(decimal(q), last, 0);
        assert(last.drop_first() =~= Seq::<char>::empty());
        assert(last[0] == digit_char(r as int));
        assert(digits_from(Seq::<char>::empty(), (q * 10 + r) as int) == Ok::<int, IntErrorKind>((q * 10 + r) as int));
        assert(digits_from(last, q as int) == Ok::<int, IntErrorKind>((q * 10 + r) as int));
        assert((decimal(q) + last)[0] == decimal(q)[0]);
    }
}

/// A number written in decimal reads back as itself.
pub proof fn lemma_parse_decimal(n: u64)
    ensures
        parse_u64_spec(decimal(n as nat)) == Ok::<int, IntErrorKind>(n as int),
{
    lemma_decimal_reads_back(n as nat);
}

/// Every character of a number written in decimal is a digit.
pub proof fn lemma_decimal_all_digits(n: nat)
    ensures
        forall|j: int| 0 <= j < decimal(n).len() ==> is_digit_char(#[trigger] decimal(n)[j]),
    decreases n,
{
    if n < 10 {
        lemma_digit_char(n as int);
    } else {
        lemma_decimal_all_digits(n / 10);
        lemma_digit_char((n % 10) as int);
        let a = decimal(n / 10);
        let b = seq![digit_char((n % 10) as int)];
        assert forall|j: int| 0 <= j < decimal(n).len() implies is_digit_char(#[trigger] decimal(n)[j]) by {
            if j < a.len() {
                assert(decimal(n)[j] == a[j]);
            } else {
                assert(decimal(n)[j] == b[j - a.len()]);
            }
        }
    }
}

} // verus!
