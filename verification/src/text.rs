//! Text building blocks: decimal rendering and parsing of integers,
//! character-level string equality and field extraction.

use vstd::prelude::*;
use vstd::string::*;

verus! {

/// The character of a decimal digit `d` (0..=9).
pub open spec fn digit_char(d: int) -> char {
    (48 + d) as char
}

/// The decimal digits of a natural number, most significant first.
pub open spec fn nat_decimal(n: nat) -> Seq<char>
    decreases n,
{
    if n < 10 {
        seq![digit_char(n as int)]
    } else {
        nat_decimal(n / 10).push(digit_char((n % 10) as int))
    }
}

/// The decimal rendering of an integer, with a leading '-' when negative.
pub open spec fn int_decimal(i: int) -> Seq<char> {
    if i < 0 {
        seq!['-'] + nat_decimal((-i) as nat)
    } else {
        nat_decimal(i as nat)
    }
}

/// Appends one character to a string (std's `String::push`).
#[verifier::external_body]
pub(crate) fn push_char(s: &mut String, c: char)
    ensures
        final(s)@ == old(s)@.push(c),
{
    s.push(c);
}

fn digit_to_char(d: u64) -> (c: char)
    requires
        d < 10,
    ensures
        c == digit_char(d as int),
{
    let b: u8 = 48u8 + (d as u8);
    b as char
}

/// Appends the decimal digits of `n` to `s`.
pub fn push_decimal(s: &mut String, n: u64)
    ensures
        final(s)@ == old(s)@ + nat_decimal(n as nat),
    decreases n,
{
    if n < 10 {
        push_char(s, digit_to_char(n));
    } else {
        push_decimal(s, n / 10);
        push_char(s, digit_to_char(n % 10));
    }
}


/// Appends the decimal rendering of `i` to `s`.
pub fn push_int_decimal(s: &mut String, i: i64)
    ensures
        final(s)@ == old(s)@ + int_decimal(i as int),
{
    if i < 0 {
        push_char(s, '-');
        let m: u64 = if i == i64::MIN {
            9223372036854775808u64
        } else {
            (-i) as u64
        };
        push_decimal(s, m);
        assert(old(s)@.push('-') + nat_decimal(m as nat) =~= old(s)@ + (seq!['-'] + nat_decimal(
            m as nat,
        )));
    } else {
        push_decimal(s, i as u64);
    }
}

/// The decimal rendering of `i`, as `i.to_string()` gives it.
pub fn i64_to_decimal(i: i64) -> (r: String)
    ensures
        r@ == int_decimal(i as int),
{
    let mut r = String::new();
    push_int_decimal(&mut r, i);
    assert(r@ =~= int_decimal(i as int));
    r
}

/// The characters of `s`, in order.
pub fn chars_of(s: &str) -> (v: Vec<char>)
    ensures
        v@ == s@,
{
    let n = s.unicode_len();
    let mut v: Vec<char> = Vec::new();
    let mut i: usize = 0;
    while i < n
        invariant
            n == s@.len(),
            i <= n,
            v@ == s@.take(i as int),
        decreases n - i,
    {
        let c = s.get_char(i);
        v.push(c);
        i = i + 1;
        assert(v@ =~= s@.take(i as int));
    }
    assert(v@ =~= s@);
    v
}

/// The string made of the characters `v[from..to]`.
pub fn string_of_range(v: &Vec<char>, from: usize, to: usize) -> (r: String)
    requires
        from <= to <= v@.len(),
    ensures
        r@ == v@.subrange(from as int, to as int),
{
    let mut r = String::new();
    let mut i: usize = from;
    while i < to
        invariant
            from <= i <= to,
            to <= v@.len(),
            r@ == v@.subrange(from as int, i as int),
        decreases to - i,
    {
        push_char(&mut r, v[i]);
        i = i + 1;
        assert(r@ =~= v@.subrange(from as int, i as int));
    }
    r
}

/// Whether two strings hold the same characters.
pub fn str_equal(a: &str, b: &str) -> (r: bool)
    ensures
        r == (a@ == b@),
{
    let x = chars_of(a);
    let y = chars_of(b);
    if x.len() != y.len() {
        return false;
    }
    let mut i: usize = 0;
    while i < x.len()
        invariant
            x@ == a@,
            y@ == b@,
            x@.len() == y@.len(),
            i <= x@.len(),
            forall|j: int| 0 <= j < i ==> x@[j] == y@[j],
        decreases x@.len() - i,
    {
        if x[i] != y[i] {
            return false;
        }
        i = i + 1;
    }
    assert(a@ =~= b@);
    true
}


/// Why a decimal integer could not be read (the kinds std reports for
/// `str::parse` of an integer).
#[derive(Clone, Copy, Debug, PartialEq, Eq, Structural)]
pub enum ParseIntError {
    Empty,
    InvalidDigit,
    PosOverflow,
    NegOverflow,
}

impl ParseIntError {
    /// The text std prints for this kind of error.
    pub open spec fn spec_message(self) -> Seq<char> {
        match self {
            ParseIntError::Empty => "cannot parse integer from empty string"@,
            ParseIntError::InvalidDigit => "invalid digit found in string"@,
            ParseIntError::PosOverflow => "number too large to fit in target type"@,
            ParseIntError::NegOverflow => "number too small to fit in target type"@,
        }
    }

    /// The text std prints for this kind of error.
    pub fn message(&self) -> (r: String)
        ensures
            r@ == self.spec_message(),
    {
        match self {
            ParseIntError::Empty => String::from_str("cannot parse integer from empty string"),
            ParseIntError::InvalidDigit => String::from_str("invalid digit found in string"),
            ParseIntError::PosOverflow => String::from_str(
                "number too large to fit in target type",
            ),
            ParseIntError::NegOverflow => String::from_str(
                "number too small to fit in target type",
            ),
        }
    }
}

pub open spec fn is_digit(c: char) -> bool {
    '0' <= c && c <= '9'
}

pub open spec fn digit_value(c: char) -> int {
    c as int - 48
}

/// The value of a string of decimal digits.
pub open spec fn digits_value(s: Seq<char>) -> nat
    decreases s.len(),
{
    if s.len() == 0 {
        0
    } else {
        (digits_value(s.drop_last()) * 10 + digit_value(s.last())) as nat
    }
}

/// How many decimal digits `s` starts with.
pub open spec fn leading_digits(s: Seq<char>) -> nat
    decreases s.len(),
{
    if s.len() == 0 {
        0
    } else if is_digit(s[0]) {
        1 + leading_digits(s.skip(1))
    } else {
        0
    }
}

/// Reading a decimal integer as std's `str::parse` does: an optional sign
/// ('-' only where `signed`), then digits; `neg_limit` and `pos_limit` bound
/// the magnitude of negative and non-negative results. An overflow among the
/// leading digits is reported before a later character that is not a digit.
pub open spec fn spec_parse_int(s: Seq<char>, signed: bool, neg_limit: nat, pos_limit: nat) -> Result<
    int,
    ParseIntError,
> {
    if s.len() == 0 {
        Err(ParseIntError::Empty)
    } else if (s[0] == '+' || s[0] == '-') && s.len() == 1 {
        Err(ParseIntError::InvalidDigit)
    } else {
        let neg = signed && s[0] == '-';
        let body = if s[0] == '+' || neg {
            s.skip(1)
        } else {
            s
        };
        let k = leading_digits(body);
        let v = digits_value(body.take(k as int));
        if neg && v > neg_limit {
            Err(ParseIntError::NegOverflow)
        } else if !neg && v > pos_limit {
            Err(ParseIntError::PosOverflow)
        } else if k < body.len() {
            Err(ParseIntError::InvalidDigit)
        } else if neg {
            Ok(-v)
        } else {
            Ok(v as int)
        }
    }
}

pub open spec fn spec_parse_i64(s: Seq<char>) -> Result<int, ParseIntError> {
    spec_parse_int(s, true, 0x8000_0000_0000_0000, 0x7fff_ffff_ffff_ffff)
}

pub open spec fn spec_parse_u64(s: Seq<char>) -> Result<int, ParseIntError> {
    spec_parse_int(s, false, 0, 0xffff_ffff_ffff_ffff)
}

proof fn lemma_leading_digits(s: Seq<char>)
    ensures
        leading_digits(s) <= s.len(),
        forall|i: int| 0 <= i < leading_digits(s) ==> is_digit(#[trigger] s[i]),
        leading_digits(s) < s.len() ==> !is_digit(s[leading_digits(s) as int]),
    decreases s.len(),
{
    if s.len() > 0 && is_digit(s[0]) {
        lemma_leading_digits(s.skip(1));
        assert forall|i: int| 0 <= i < leading_digits(s) implies is_digit(#[trigger] s[i]) by {
            if i > 0 {
                assert(s[i] == s.skip(1)[i - 1]);
            }
        }
    }
}

proof fn lemma_leading_digits_unique(s: Seq<char>, k: int)
    requires
        0 <= k <= s.len(),
        forall|i: int| 0 <= i < k ==> is_digit(#[trigger] s[i]),
        k < s.len() ==> !is_digit(s[k]),
    ensures
        leading_digits(s) == k,
{
    lemma_leading_digits(s);
    if leading_digits(s) < k {
        assert(is_digit(s[leading_digits(s) as int]));
    }
    if leading_digits(s) > k {
        assert(is_digit(s[k]));
    }
}

proof fn lemma_digits_value_step(s: Seq<char>, i: int)
    requires
        0 <= i < s.len(),
        is_digit(s[i]),
    ensures
        digits_value(s.take(i + 1)) == digits_value(s.take(i)) * 10 + digit_value(s[i]),
{
    assert(s.take(i + 1).drop_last() =~= s.take(i));
}

proof fn lemma_digits_value_monotone(s: Seq<char>, i: int, j: int)
    requires
        0 <= i <= j <= s.len(),
        forall|t: int| 0 <= t < j ==> is_digit(#[trigger] s[t]),
    ensures
        digits_value(s.take(i)) <= digits_value(s.take(j)),
    decreases j - i,
{
    if i < j {
        lemma_digits_value_monotone(s, i, j - 1);
        lemma_digits_value_step(s, j - 1);
        assert(is_digit(s[j - 1]));
    }
}

/// Reads the digits of `v[start..]` with the magnitude bounded by `limit`.
/// Returns the value, or the kind of failure: `Ok(Err(true))` for an overflow,
/// `Ok(Err(false))` for a character that is not a digit.
fn read_magnitude(v: &Vec<char>, start: usize, limit: u64) -> (r: Result<u64, bool>)
    requires
        start <= v@.len(),
    ensures
        ({
            let body = v@.skip(start as int);
            let k = leading_digits(body);
            let val = digits_value(body.take(k as int));
            match r {
                Ok(x) => val <= limit && k == body.len() && x == val,
                Err(true) => val > limit,
                Err(false) => val <= limit && k < body.len(),
            }
        }),
{
    let ghost body = v@.skip(start as int);
    let mut acc: u64 = 0;
    let mut i: usize = start;
    while i < v.len()
        invariant
            start <= i <= v@.len(),
            body == v@.skip(start as int),
            forall|t: int| 0 <= t < i - start ==> is_digit(#[trigger] body[t]),
            acc == digits_value(body.take(i - start)),
            acc <= limit,
        decreases v@.len() - i,
    {
        let c = v[i];
        assert(c == body[i - start]);
        if !('0' <= c && c <= '9') {
            proof {
                lemma_leading_digits_unique(body, i - start);
            }
            return Err(false);
        }
        let d: u64 = ((c as u32) - 48) as u64;
        proof {
            lemma_digits_value_step(body, i - start);
        }
        let wide: u128 = (acc as u128) * 10 + (d as u128);
        if wide > limit as u128 {
            proof {
                lemma_leading_digits_unique_after(body, (i - start) as int);
                lemma_digits_value_monotone(body, i - start + 1, leading_digits(body) as int);
            }
            return Err(true);
        }
        acc = wide as u64;
        i = i + 1;
    }
    proof {
        lemma_leading_digits_unique(body, i - start);
        assert(body.take(body.len() as int) =~= body);
    }
    Ok(acc)
}

proof fn lemma_leading_digits_unique_after(s: Seq<char>, i: int)
    requires
        0 <= i < s.len(),
        forall|t: int| 0 <= t <= i ==> is_digit(#[trigger] s[t]),
    ensures
        i + 1 <= leading_digits(s) <= s.len(),
        forall|t: int| 0 <= t < leading_digits(s) ==> is_digit(#[trigger] s[t]),
{
    lemma_leading_digits(s);
    if leading_digits(s) <= i {
        assert(is_digit(s[leading_digits(s) as int]));
    }
}

/// Reads a signed decimal integer, as `i64::from_str` does.
pub fn parse_i64(s: &str) -> (r: Result<i64, ParseIntError>)
    ensures
        match spec_parse_i64(s@) {
            Ok(x) => r == Ok::<i64, ParseIntError>(x as i64),
            Err(e) => r == Err::<i64, ParseIntError>(e),
        },
{
    let v = chars_of(s);
    if v.len() == 0 {
        return Err(ParseIntError::Empty);
    }
    let c0 = v[0];
    if (c0 == '+' || c0 == '-') && v.len() == 1 {
        return Err(ParseIntError::InvalidDigit);
    }
    let neg = c0 == '-';
    let start: usize = if c0 == '+' || neg { 1 } else { 0 };
    assert(start == 0 ==> v@.skip(0) =~= v@);
    let limit: u64 = if neg { 0x8000_0000_0000_0000u64 } else { 0x7fff_ffff_ffff_ffffu64 };
    match read_magnitude(&v, start, limit) {
        Ok(m) => {
            if neg {
                if m == 0x8000_0000_0000_0000u64 {
                    Ok(i64::MIN)
                } else {
                    Ok(-(m as i64))
                }
            } else {
                Ok(m as i64)
            }
        },
        Err(true) => {
            if neg {
                Err(ParseIntError::NegOverflow)
            } else {
                Err(ParseIntError::PosOverflow)
            }
        },
        Err(false) => Err(ParseIntError::InvalidDigit),
    }
}

/// Reads an unsigned decimal integer, as `u64::from_str` does.
pub fn parse_u64(s: &str) -> (r: Result<u64, ParseIntError>)
    ensures
        match spec_parse_u64(s@) {
            Ok(x) => r == Ok::<u64, ParseIntError>(x as u64),
            Err(e) => r == Err::<u64, ParseIntError>(e),
        },
{
    let v = chars_of(s);
    if v.len() == 0 {
        return Err(ParseIntError::Empty);
    }
    let c0 = v[0];
    if (c0 == '+' || c0 == '-') && v.len() == 1 {
        return Err(ParseIntError::InvalidDigit);
    }
    let start: usize = if c0 == '+' { 1 } else { 0 };
    assert(start == 0 ==> v@.skip(0) =~= v@);
    match read_magnitude(&v, start, 0xffff_ffff_ffff_ffffu64) {
        Ok(m) => Ok(m),
        Err(true) => Err(ParseIntError::PosOverflow),
        Err(false) => Err(ParseIntError::InvalidDigit),
    }
}


/// The decimal rendering of `n` is a non-empty run of digits worth `n`.
pub proof fn lemma_nat_decimal_facts(n: nat)
    ensures
        nat_decimal(n).len() >= 1,
        forall|i: int| 0 <= i < nat_decimal(n).len() ==> is_digit(#[trigger] nat_decimal(n)[i]),
        digits_value(nat_decimal(n)) == n,
    decreases n,
{
    let d = (n % 10) as int;
    assert(digit_char(d) as int == 48 + d);
    if n >= 10 {
        lemma_nat_decimal_facts(n / 10);
        let s = nat_decimal(n);
        assert(s.drop_last() =~= nat_decimal(n / 10));
        assert(s.last() == digit_char(d));
        assert(digits_value(s) == (n / 10) * 10 + d);
    } else {
        let s = nat_decimal(n);
        assert(s.drop_last() =~= Seq::<char>::empty());
        assert(digits_value(s.drop_last()) == 0);
    }
}

proof fn lemma_parse_all_digits(s: Seq<char>)
    requires
        s.len() >= 1,
        forall|i: int| 0 <= i < s.len() ==> is_digit(#[trigger] s[i]),
    ensures
        leading_digits(s) == s.len(),
        s.take(s.len() as int) == s,
{
    lemma_leading_digits_unique(s, s.len() as int);
    assert(s.take(s.len() as int) =~= s);
}

/// Reading back the decimal rendering of any `i64` gives that number:
/// `parse_i64(&i64_to_decimal(n)) == Ok(n)`.
pub proof fn lemma_i64_decimal_roundtrip(n: i64)
    ensures
        spec_parse_i64(int_decimal(n as int)) == Ok::<int, ParseIntError>(n as int),
{
    let m: nat = if n < 0 { (-n) as nat } else { n as nat };
    lemma_nat_decimal_facts(m);
    lemma_parse_all_digits(nat_decimal(m));
    let s = int_decimal(n as int);
    if n < 0 {
        assert(s[0] == '-');
        assert(s.skip(1) =~= nat_decimal(m));
    } else {
        assert(is_digit(s[0]));
    }
}

/// Reading back the decimal rendering of any `u64` gives that number:
/// `parse_u64` of the digits of `n` is `Ok(n)`.
pub proof fn lemma_u64_decimal_roundtrip(n: u64)
    ensures
        spec_parse_u64(nat_decimal(n as nat)) == Ok::<int, ParseIntError>(n as int),
{
    lemma_nat_decimal_facts(n as nat);
    lemma_parse_all_digits(nat_decimal(n as nat));
    assert(is_digit(nat_decimal(n as nat)[0]));
}


/// `sep` occurs in `s` at position `i`.
pub open spec fn matches_at(s: Seq<char>, sep: Seq<char>, i: int) -> bool {
    0 <= i && i + sep.len() <= s.len() && s.subrange(i, i + sep.len()) == sep
}

/// The first position at or after `start` where `sep` occurs in `s`, or -1.
pub open spec fn find_from(s: Seq<char>, sep: Seq<char>, start: int) -> int
    decreases s.len() - start,
{
    if sep.len() == 0 || start < 0 || start + sep.len() > s.len() {
        -1
    } else if matches_at(s, sep, start) {
        start
    } else {
        find_from(s, sep, start + 1)
    }
}

pub proof fn lemma_find_from_bounds(s: Seq<char>, sep: Seq<char>, start: int)
    ensures
        find_from(s, sep, start) == -1 || (start <= find_from(s, sep, start) && matches_at(
            s,
            sep,
            find_from(s, sep, start),
        )),
    decreases s.len() - start,
{
    if !(sep.len() == 0 || start < 0 || start + sep.len() > s.len()) && !matches_at(s, sep, start) {
        lemma_find_from_bounds(s, sep, start + 1);
    }
}

/// The pieces of `s[start..]` between the occurrences of `sep`, found left
/// to right without overlap (as `str::split` with a string pattern).
pub open spec fn fields_from(s: Seq<char>, sep: Seq<char>, start: int) -> Seq<Seq<char>>
    decreases s.len() - start,
{
    if sep.len() == 0 || start < 0 || start > s.len() {
        seq![]
    } else {
        let i = find_from(s, sep, start);
        if i < 0 {
            seq![s.subrange(start, s.len() as int)]
        } else {
            proof {
                lemma_find_from_bounds(s, sep, start);
            }
            seq![s.subrange(start, i)] + fields_from(s, sep, i + sep.len())
        }
    }
}

/// The pieces of `s` between the occurrences of `sep`.
pub open spec fn split_fields(s: Seq<char>, sep: Seq<char>) -> Seq<Seq<char>> {
    fields_from(s, sep, 0)
}

/// The `n`-th piece of `s` split at `sep`, if there are that many.
pub open spec fn nth_field(s: Seq<char>, sep: Seq<char>, n: int) -> Option<Seq<char>> {
    let f = split_fields(s, sep);
    if 0 <= n < f.len() {
        Some(f[n])
    } else {
        None
    }
}

fn matches_at_exec(s: &Vec<char>, sep: &Vec<char>, i: usize) -> (r: bool)
    requires
        i + sep@.len() <= s@.len(),
    ensures
        r == matches_at(s@, sep@, i as int),
{
    let sl = s.len();
    let mut j: usize = 0;
    while j < sep.len()
        invariant
            sl == s@.len(),
            i + sep@.len() <= s@.len(),
            j <= sep@.len(),
            forall|t: int| 0 <= t < j ==> s@[i + t] == sep@[t],
        decreases sep@.len() - j,
    {
        if s[i + j] != sep[j] {
            assert(s@.subrange(i as int, i + sep@.len())[j as int] != sep@[j as int]);
            return false;
        }
        j = j + 1;
    }
    assert(s@.subrange(i as int, i + sep@.len()) =~= sep@);
    true
}

fn find_from_exec(s: &Vec<char>, sep: &Vec<char>, start: usize) -> (r: Option<usize>)
    requires
        sep@.len() > 0,
        start <= s@.len(),
    ensures
        match r {
            Some(i) => i as int == find_from(s@, sep@, start as int),
            None => find_from(s@, sep@, start as int) == -1,
        },
{
    if sep.len() > s.len() {
        return None;
    }
    let last = s.len() - sep.len();
    let sl = s.len();
    let mut i: usize = start;
    while i <= last
        invariant
            sl == s@.len(),
            sep@.len() > 0,
            last + sep@.len() == s@.len(),
            start <= i,
            find_from(s@, sep@, start as int) == find_from(s@, sep@, i as int),
        decreases s@.len() - i,
    {
        if matches_at_exec(s, sep, i) {
            return Some(i);
        }
        i = i + 1;
    }
    None
}

/// The `n`-th piece of `s` split at `sep` (`s.split(sep).nth(n)`), if there
/// are that many pieces.
pub fn split_field(s: &str, sep: &str, n: usize) -> (r: Option<String>)
    requires
        sep@.len() > 0,
    ensures
        match r {
            Some(f) => nth_field(s@, sep@, n as int) == Some(f@),
            None => nth_field(s@, sep@, n as int) is None,
        },
{
    let v = chars_of(s);
    let p = chars_of(sep);
    let vl = v.len();
    let mut start: usize = 0;
    let mut k: usize = 0;
    loop
        invariant
            vl == v@.len(),
            v@ == s@,
            p@ == sep@,
            p@.len() > 0,
            start <= v@.len(),
            k <= n,
            nth_field(s@, sep@, n as int) == ({
                let f = fields_from(s@, sep@, start as int);
                if 0 <= n - k < f.len() {
                    Some(f[n - k])
                } else {
                    None::<Seq<char>>
                }
            }),
        decreases n - k,
    {
        let ghost f = fields_from(s@, sep@, start as int);
        match find_from_exec(&v, &p, start) {
            None => {
                assert(f =~= seq![s@.subrange(start as int, s@.len() as int)]);
                if k == n {
                    return Some(string_of_range(&v, start, v.len()));
                }
                return None;
            },
            Some(i) => {
                proof {
                    lemma_find_from_bounds(s@, sep@, start as int);
                }
                let ghost rest = fields_from(s@, sep@, i + sep@.len());
                assert(f =~= seq![s@.subrange(start as int, i as int)] + rest);
                if k == n {
                    return Some(string_of_range(&v, start, i));
                }
                assert(forall|j: int| 0 <= j < rest.len() ==> f[j + 1] == rest[j]);
                assert(i + p@.len() <= v@.len());
                start = i + p.len();
                k = k + 1;
            },
        }
    }
}


/// Pieces joined with the character `c` between them.
pub open spec fn join_with(parts: Seq<Seq<char>>, c: char) -> Seq<char>
    decreases parts.len(),
{
    if parts.len() == 0 {
        Seq::empty()
    } else if parts.len() == 1 {
        parts[0]
    } else {
        parts[0] + seq![c] + join_with(parts.skip(1), c)
    }
}

/// Joining one more piece at the end.
pub proof fn lemma_join_with_push(parts: Seq<Seq<char>>, x: Seq<char>, c: char)
    requires
        parts.len() >= 1,
    ensures
        join_with(parts.push(x), c) == join_with(parts, c) + seq![c] + x,
    decreases parts.len(),
{
    let q = parts.push(x);
    assert(q[0] == parts[0]);
    if parts.len() == 1 {
        assert(q.skip(1) =~= seq![x]);
        assert(join_with(q.skip(1), c) == x);
    } else {
        lemma_join_with_push(parts.skip(1), x, c);
        assert(q.skip(1) =~= parts.skip(1).push(x));
        assert(join_with(q, c) =~= parts[0] + seq![c] + (join_with(parts.skip(1), c) + seq![c] + x));
    }
}

/// The characters of each string.
pub open spec fn views_of(v: Seq<String>) -> Seq<Seq<char>> {
    v.map_values(|s: String| s@)
}

/// The strings of `parts` joined with `c` between them.
pub fn join_strings(parts: &Vec<String>, c: char) -> (r: String)
    ensures
        r@ == join_with(views_of(parts@), c),
{
    let mut r = String::new();
    let mut i: usize = 0;
    while i < parts.len()
        invariant
            i <= parts@.len(),
            r@ == join_with(views_of(parts@).take(i as int), c),
        decreases parts@.len() - i,
    {
        let ghost prev = views_of(parts@).take(i as int);
        if i > 0 {
            push_char(&mut r, c);
        }
        r.append(parts[i].as_str());
        proof {
            let next = views_of(parts@).take(i + 1);
            assert(next =~= prev.push(parts@[i as int]@));
            if i > 0 {
                lemma_join_with_push(prev, parts@[i as int]@, c);
            } else {
                assert(next =~= seq![parts@[0]@]);
            }
            assert(r@ =~= join_with(next, c));
        }
        i = i + 1;
    }
    assert(views_of(parts@).take(parts@.len() as int) =~= views_of(parts@));
    r
}

proof fn lemma_matches_one(s: Seq<char>, c: char, i: int)
    ensures
        matches_at(s, seq![c], i) <==> (0 <= i < s.len() && s[i] == c),
{
    if 0 <= i < s.len() && s[i] == c {
        assert(s.subrange(i, i + 1) =~= seq![c]);
    }
    if matches_at(s, seq![c], i) {
        assert(s.subrange(i, i + 1)[0] == s[i]);
    }
}

proof fn lemma_find_one(s: Seq<char>, c: char, start: int, p: int)
    requires
        0 <= start <= p <= s.len(),
        forall|i: int| start <= i < p ==> s[i] != c,
        p < s.len() ==> s[p] == c,
    ensures
        find_from(s, seq![c], start) == (if p < s.len() {
            p
        } else {
            -1
        }),
    decreases p - start,
{
    lemma_matches_one(s, c, start);
    if start < p {
        lemma_find_one(s, c, start + 1, p);
    }
}

proof fn lemma_fields_of_join(pre: Seq<char>, parts: Seq<Seq<char>>, c: char)
    requires
        parts.len() >= 1,
        forall|k: int| 0 <= k < parts.len() ==> !(#[trigger] parts[k]).contains(c),
    ensures
        fields_from(pre + join_with(parts, c), seq![c], pre.len() as int) == parts,
    decreases parts.len(),
{
    let s = pre + join_with(parts, c);
    let a = parts[0];
    let start = pre.len() as int;
    let p = start + a.len();
    assert forall|i: int| start <= i < p implies s[i] != c by {
        assert(s[i] == a[i - start]);
        if s[i] == c {
            assert(a.contains(c));
        }
    }
    if parts.len() == 1 {
        assert(s =~= pre + a);
        lemma_find_one(s, c, start, p);
        assert(s.subrange(start, s.len() as int) =~= a);
        assert(fields_from(s, seq![c], start) =~= seq![a]);
        assert(parts =~= seq![a]);
    } else {
        let rest = parts.skip(1);
        assert(s =~= pre + a + seq![c] + join_with(rest, c));
        assert(s[p] == c);
        lemma_find_one(s, c, start, p);
        let pre2 = pre + a + seq![c];
        assert forall|k: int| 0 <= k < rest.len() implies !(#[trigger] rest[k]).contains(c) by {
            assert(rest[k] == parts[k + 1]);
        }
        lemma_fields_of_join(pre2, rest, c);
        assert(pre2 + join_with(rest, c) =~= s);
        assert(s.subrange(start, p) =~= a);
        assert(fields_from(s, seq![c], start) =~= seq![a] + rest);
        assert(parts =~= seq![a] + rest);
    }
}

/// Splitting pieces that were joined with a character none of them holds
/// gives the pieces back.
pub proof fn lemma_split_join(parts: Seq<Seq<char>>, c: char)
    requires
        parts.len() >= 1,
        forall|k: int| 0 <= k < parts.len() ==> !(#[trigger] parts[k]).contains(c),
    ensures
        split_fields(join_with(parts, c), seq![c]) == parts,
{
    lemma_fields_of_join(Seq::empty(), parts, c);
    assert(Seq::<char>::empty() + join_with(parts, c) =~= join_with(parts, c));
}

} // verus!
