//! Leaf productions of the grammar: integers, decimals, aperture
//! identifiers, names, fields and strings.
//!
//! Every parser reads a byte slice from its start and returns the parsed
//! value together with the number of bytes it consumed, or `None` when the
//! input does not start with the production.
use vstd::prelude::*;

verus! {

/// Largest value an integer of the grammar may have.
pub const INT_MAX: u64 = 0x7fff_ffff;

/// Largest mantissa a decimal of the grammar may have.
pub const MANTISSA_MAX: u64 = 0x7fff_ffff_ffff_ffff;

/// Longest name, leading `.` included.
pub const NAME_MAX: usize = 127;

/// ASCII `0`.
pub const DIGIT_0: u8 = 0x30;
/// ASCII `9`.
pub const DIGIT_9: u8 = 0x39;
/// ASCII `+`.
pub const PLUS: u8 = 0x2b;
/// ASCII `-`.
pub const MINUS: u8 = 0x2d;
/// ASCII `.`.
pub const DOT: u8 = 0x2e;
/// ASCII `D`.
pub const UPPER_D: u8 = 0x44;
/// ASCII `_`.
pub const UNDERSCORE: u8 = 0x5f;
/// ASCII `$`.
pub const DOLLAR: u8 = 0x24;
/// ASCII `%`.
pub const PERCENT: u8 = 0x25;
/// ASCII `*`.
pub const STAR: u8 = 0x2a;
/// ASCII `,`.
pub const COMMA: u8 = 0x2c;

/// An ASCII digit.
pub open spec fn is_digit(b: u8) -> bool {
    DIGIT_0 <= b && b <= DIGIT_9
}

/// `acc` followed by the decimal digits of `s`, as a number.
pub open spec fn fold_digits(acc: nat, s: Seq<u8>) -> nat
    decreases s.len(),
{
    if s.len() == 0 {
        acc
    } else {
        fold_digits(acc * 10 + (s[0] - DIGIT_0) as nat, s.drop_first())
    }
}

/// The number that the digits of `s` spell.
pub open spec fn digits_value(s: Seq<u8>) -> nat {
    fold_digits(0, s)
}

/// End of the run of bytes satisfying `p` that begins at `i`.
pub open spec fn span(s: Seq<u8>, i: int, p: spec_fn(u8) -> bool) -> int
    decreases s.len() - i,
{
    if 0 <= i < s.len() && p(s[i]) {
        span(s, i + 1, p)
    } else {
        i
    }
}

/// End of the run of digits that begins at `i`.
pub open spec fn run_end(s: Seq<u8>, i: int) -> int {
    span(s, i, |b: u8| is_digit(b))
}

/// End of the run of `0` bytes that begins at `i`.
pub open spec fn zeros_end(s: Seq<u8>, i: int) -> int {
    span(s, i, |b: u8| b == DIGIT_0)
}

/// A span stays inside the input, and each byte in it satisfies `p`.
pub proof fn lemma_span_bounds(s: Seq<u8>, i: int, p: spec_fn(u8) -> bool)
    requires
        0 <= i <= s.len(),
    ensures
        i <= span(s, i, p) <= s.len(),
        forall|j: int| i <= j < span(s, i, p) ==> p(#[trigger] s[j]),
        span(s, i, p) < s.len() ==> !p(s[span(s, i, p)]),
    decreases s.len() - i,
{
    if i < s.len() && p(s[i]) {
        lemma_span_bounds(s, i + 1, p);
    }
}

proof fn lemma_run_end_bounds(s: Seq<u8>, i: int)
    requires
        0 <= i <= s.len(),
    ensures
        i <= run_end(s, i) <= s.len(),
        forall|j: int| i <= j < run_end(s, i) ==> is_digit(#[trigger] s[j]),
{
    lemma_span_bounds(s, i, |b: u8| is_digit(b));
}

proof fn lemma_zeros_end_bounds(s: Seq<u8>, i: int)
    requires
        0 <= i <= s.len(),
    ensures
        i <= zeros_end(s, i) <= s.len(),
{
    lemma_span_bounds(s, i, |b: u8| b == DIGIT_0);
}

/// Folding never makes a number smaller.
pub proof fn lemma_fold_digits_grows(acc: nat, s: Seq<u8>)
    ensures
        fold_digits(acc, s) >= acc,
    decreases s.len(),
{
    if s.len() > 0 {
        lemma_fold_digits_grows(acc * 10 + (s[0] - DIGIT_0) as nat, s.drop_first());
    }
}

/// An ASCII digit.
pub fn is_digit_byte(b: u8) -> (r: bool)
    ensures
        r == is_digit(b),
{
    DIGIT_0 <= b && b <= DIGIT_9
}

/// End of the run of digits that begins at `start`.
fn scan_digits(s: &[u8], start: usize) -> (end: usize)
    requires
        start <= s@.len(),
    ensures
        end == run_end(s@, start as int),
        start <= end <= s@.len(),
{
    proof {
        lemma_run_end_bounds(s@, start as int);
    }
    let mut i: usize = start;
    while i < s.len() && is_digit_byte(s[i])
        invariant
            start <= i <= s@.len(),
            run_end(s@, i as int) == run_end(s@, start as int),
        decreases s@.len() - i,
    {
        i += 1;
    }
    i
}

/// End of the run of `0` bytes that begins at `start`.
fn scan_zeros(s: &[u8], start: usize) -> (end: usize)
    requires
        start <= s@.len(),
    ensures
        end == zeros_end(s@, start as int),
        start <= end <= s@.len(),
{
    proof {
        lemma_zeros_end_bounds(s@, start as int);
    }
    let mut i: usize = start;
    while i < s.len() && s[i] == DIGIT_0
        invariant
            start <= i <= s@.len(),
            zeros_end(s@, i as int) == zeros_end(s@, start as int),
        decreases s@.len() - i,
    {
        i += 1;
    }
    i
}

/// Appends the digits of `s` to `acc`; `None` when the number passes `max`.
fn fold_digits_bounded(acc: u64, s: &[u8], max: u64) -> (r: Option<u64>)
    requires
        acc <= max,
        9 <= max <= MANTISSA_MAX,
        forall|j: int| 0 <= j < s@.len() ==> is_digit(#[trigger] s@[j]),
    ensures
        fold_digits(acc as nat, s@) <= max ==> r == Some(fold_digits(acc as nat, s@) as u64),
        fold_digits(acc as nat, s@) > max ==> r is None,
{
    let mut v: u64 = acc;
    let mut i: usize = 0;
    assert(s@.subrange(0, s@.len() as int) =~= s@);
    while i < s.len()
        invariant
            0 <= i <= s@.len(),
            v <= max,
            9 <= max <= MANTISSA_MAX,
            forall|j: int| 0 <= j < s@.len() ==> is_digit(#[trigger] s@[j]),
            fold_digits(v as nat, s@.subrange(i as int, s@.len() as int)) == fold_digits(
                acc as nat,
                s@,
            ),
        decreases s@.len() - i,
    {
        let ghost rest = s@.subrange(i as int, s@.len() as int);
        assert(rest.drop_first() =~= s@.subrange(i + 1, s@.len() as int));
        assert(rest[0] == s@[i as int]);
        assert(is_digit(s@[i as int]));
        let d = (s[i] - DIGIT_0) as u64;
        if v > (max - d) / 10 {
            proof {
                assert(v * 10 + d > max) by (nonlinear_arith)
                    requires
                        v > (max - d) / 10,
                        d <= max,
                ;
                lemma_fold_digits_grows(v as nat * 10 + d as nat, rest.drop_first());
            }
            return None;
        }
        assert(v * 10 + d <= max) by (nonlinear_arith)
            requires
                v <= (max - d) / 10,
                d <= 9,
                d <= max,
        ;
        v = v * 10 + d;
        i += 1;
    }
    assert(s@.subrange(i as int, s@.len() as int).len() == 0);
    Some(v)
}

/// An optional sign, then one or more digits.
pub open spec fn is_signed_digits(x: Seq<u8>) -> bool {
    let start: int = if x.len() > 0 && is_sign(x[0]) {
        1
    } else {
        0
    };
    start < x.len() && forall|j: int| start <= j < x.len() ==> is_digit(#[trigger] x[j])
}

/// The integer that an optional sign and digits denote.
pub open spec fn signed_value(x: Seq<u8>) -> int {
    if x.len() > 0 && x[0] == MINUS {
        -(digits_value(x.drop_first()) as int)
    } else if x.len() > 0 && x[0] == PLUS {
        digits_value(x.drop_first()) as int
    } else {
        digits_value(x) as int
    }
}

/// The value of an optional sign followed by ASCII digits, which must fit
/// an `i32`.
pub fn into_i32(x: &[u8]) -> (r: i32)
    requires
        is_signed_digits(x@),
        i32::MIN <= signed_value(x@) <= i32::MAX,
    ensures
        r as int == signed_value(x@),
{
    let signed = x[0] == PLUS || x[0] == MINUS;
    let digits = if signed {
        &x[1..x.len()]
    } else {
        x
    };
    proof {
        if signed {
            assert(digits@ =~= x@.drop_first());
        }
    }
    let v = fold_digits_bounded(0, digits, INT_MAX + 1);
    match v {
        Some(n) => if x[0] == MINUS {
            (-(n as i64)) as i32
        } else {
            n as i32
        },
        None => 0,
    }
}

/// `unsignedInteger`: one or more digits, with no sign.
pub open spec fn spec_unsigned_integer(s: Seq<u8>) -> Option<(i32, usize)> {
    let e = run_end(s, 0);
    if e > 0 && digits_value(s.subrange(0, e)) <= INT_MAX {
        Some((digits_value(s.subrange(0, e)) as i32, e as usize))
    } else {
        None
    }
}

/// `positiveInteger`: leading zeros, then at least one digit that is not one
/// of them; the value is never zero.
pub open spec fn spec_positive_integer(s: Seq<u8>) -> Option<(i32, usize)> {
    let z = zeros_end(s, 0);
    let e = run_end(s, z);
    if e > z && digits_value(s.subrange(z, e)) <= INT_MAX {
        Some((digits_value(s.subrange(z, e)) as i32, e as usize))
    } else {
        None
    }
}

/// A `+` or `-` byte.
pub open spec fn is_sign(b: u8) -> bool {
    b == PLUS || b == MINUS
}

/// `integer`: an optional sign, then one or more digits.
pub open spec fn spec_integer(s: Seq<u8>) -> Option<(i32, usize)> {
    if s.len() > 0 && is_sign(s[0]) {
        match spec_unsigned_integer(s.drop_first()) {
            Some((v, n)) => Some((if s[0] == MINUS { (-v) as i32 } else { v }, (n + 1) as usize)),
            None => None,
        }
    } else {
        spec_unsigned_integer(s)
    }
}

/// Parses a non-negative integer.
pub fn unsigned_integer(s: &[u8]) -> (r: Option<(i32, usize)>)
    ensures
        r == spec_unsigned_integer(s@),
        r matches Some((_, n)) ==> 0 < n <= s@.len(),
{
    let e = scan_digits(s, 0);
    if e == 0 {
        return None;
    }
    let digits = &s[0..e];
    proof {
        lemma_run_end_bounds(s@, 0);
        assert(digits@ =~= s@.subrange(0, e as int));
    }
    match fold_digits_bounded(0, digits, INT_MAX) {
        Some(v) => Some((v as i32, e)),
        None => None,
    }
}

/// Parses a positive integer: leading zeros are allowed, a sign is not.
pub fn positive_integer(s: &[u8]) -> (r: Option<(i32, usize)>)
    ensures
        r == spec_positive_integer(s@),
{
    let z = scan_zeros(s, 0);
    let e = scan_digits(s, z);
    if e == z {
        return None;
    }
    let digits = &s[z..e];
    proof {
        lemma_run_end_bounds(s@, z as int);
        assert(digits@ =~= s@.subrange(z as int, e as int));
    }
    match fold_digits_bounded(0, digits, INT_MAX) {
        Some(v) => Some((v as i32, e)),
        None => None,
    }
}

/// Parses an integer with an optional sign.
pub fn integer(s: &[u8]) -> (r: Option<(i32, usize)>)
    ensures
        r == spec_integer(s@),
{
    if s.len() > 0 && (s[0] == PLUS || s[0] == MINUS) {
        let rest = &s[1..s.len()];
        assert(rest@ =~= s@.drop_first());
        match unsigned_integer(rest) {
            Some((v, n)) => {
                let v = if s[0] == MINUS {
                    -v
                } else {
                    v
                };
                Some((v, n + 1))
            },
            None => None,
        }
    } else {
        unsigned_integer(s)
    }
}

/// A decimal number worth `mantissa / 10^scale`.
#[derive(Clone, Copy, Debug, PartialEq, Eq, Structural)]
pub struct Decimal {
    pub mantissa: i64,
    pub scale: usize,
}

impl Decimal {
    /// Builds the decimal worth `mantissa / 10^scale`.
    pub fn new(mantissa: i64, scale: usize) -> (r: Decimal)
        ensures
            r == (Decimal { mantissa, scale }),
    {
        Decimal { mantissa, scale }
    }
}

/// The decimal with the opposite sign.
pub open spec fn negate(d: Decimal) -> Decimal {
    Decimal { mantissa: (-d.mantissa) as i64, scale: d.scale }
}

/// A decimal whose digits are those of `int_digits` then `frac_digits`,
/// when its mantissa fits.
pub open spec fn decimal_of(int_digits: Seq<u8>, frac_digits: Seq<u8>, consumed: int) -> Option<
    (Decimal, usize),
> {
    let m = fold_digits(digits_value(int_digits), frac_digits);
    if m <= MANTISSA_MAX {
        Some((Decimal { mantissa: m as i64, scale: frac_digits.len() as usize }, consumed as usize))
    } else {
        None
    }
}

/// `unsignedDecimal`: digits with an optional fraction (`1`, `1.`, `1.5`),
/// or a fraction alone (`.5`).
pub open spec fn spec_unsigned_decimal(s: Seq<u8>) -> Option<(Decimal, usize)> {
    let a = run_end(s, 0);
    if a > 0 {
        if a < s.len() && s[a] == DOT {
            let b = run_end(s, a + 1);
            decimal_of(s.subrange(0, a), s.subrange(a + 1, b), b)
        } else {
            decimal_of(s.subrange(0, a), Seq::empty(), a)
        }
    } else if s.len() > 0 && s[0] == DOT && run_end(s, 1) > 1 {
        let b = run_end(s, 1);
        decimal_of(Seq::empty(), s.subrange(1, b), b)
    } else {
        None
    }
}

/// `decimal`: an optional sign, applied to an unsigned decimal.
pub open spec fn spec_decimal(s: Seq<u8>) -> Option<(Decimal, usize)> {
    if s.len() > 0 && is_sign(s[0]) {
        match spec_unsigned_decimal(s.drop_first()) {
            Some((d, n)) => Some(
                (if s[0] == MINUS {
                    negate(d)
                } else {
                    d
                }, (n + 1) as usize),
            ),
            None => None,
        }
    } else {
        spec_unsigned_decimal(s)
    }
}

/// Digits of `s[from..to]` appended to `acc`, when the result fits a mantissa.
fn fold_run(acc: u64, s: &[u8], from: usize, to: usize) -> (r: Option<u64>)
    requires
        acc <= MANTISSA_MAX,
        from <= to <= s@.len(),
        forall|j: int| from <= j < to ==> is_digit(#[trigger] s@[j]),
    ensures
        fold_digits(acc as nat, s@.subrange(from as int, to as int)) <= MANTISSA_MAX ==> r == Some(
            fold_digits(acc as nat, s@.subrange(from as int, to as int)) as u64,
        ),
        fold_digits(acc as nat, s@.subrange(from as int, to as int)) > MANTISSA_MAX ==> r is None,
{
    let run = &s[from..to];
    assert(run@ =~= s@.subrange(from as int, to as int));
    fold_digits_bounded(acc, run, MANTISSA_MAX)
}

/// Parses a decimal without a sign.
pub fn unsigned_decimal(s: &[u8]) -> (r: Option<(Decimal, usize)>)
    ensures
        r == spec_unsigned_decimal(s@),
        r matches Some((d, n)) ==> 0 < n <= s@.len() && d.mantissa >= 0,
{
    let a = scan_digits(s, 0);
    proof {
        lemma_run_end_bounds(s@, 0);
    }
    if a > 0 {
        let has_dot = a < s.len() && s[a] == DOT;
        let ghost int_digits = s@.subrange(0, a as int);
        let iv = match fold_run(0, s, 0, a) {
            Some(v) => v,
            None => {
                proof {
                    if has_dot {
                        lemma_run_end_bounds(s@, a + 1);
                        lemma_fold_digits_grows(
                            digits_value(int_digits),
                            s@.subrange(a + 1, run_end(s@, a + 1)),
                        );
                    }
                }
                return None;
            },
        };
        if has_dot {
            let b = scan_digits(s, a + 1);
            proof {
                lemma_run_end_bounds(s@, a + 1);
            }
            match fold_run(iv, s, a + 1, b) {
                Some(m) => Some((Decimal { mantissa: m as i64, scale: b - a - 1 }, b)),
                None => None,
            }
        } else {
            assert(fold_digits(digits_value(int_digits), Seq::empty()) == digits_value(int_digits));
            Some((Decimal { mantissa: iv as i64, scale: 0 }, a))
        }
    } else if s.len() > 0 && s[0] == DOT {
        let b = scan_digits(s, 1);
        if b == 1 {
            return None;
        }
        proof {
            lemma_run_end_bounds(s@, 1);
            assert(digits_value(Seq::empty()) == 0);
        }
        match fold_run(0, s, 1, b) {
            Some(m) => Some((Decimal { mantissa: m as i64, scale: b - 1 }, b)),
            None => None,
        }
    } else {
        None
    }
}

/// Parses a decimal with an optional sign.
pub fn decimal(s: &[u8]) -> (r: Option<(Decimal, usize)>)
    ensures
        r == spec_decimal(s@),
        r matches Some((_, n)) ==> 0 < n <= s@.len(),
{
    if s.len() > 0 && (s[0] == PLUS || s[0] == MINUS) {
        let rest = &s[1..s.len()];
        assert(rest@ =~= s@.drop_first());
        match unsigned_decimal(rest) {
            Some((d, n)) => {
                let d = if s[0] == MINUS {
                    Decimal { mantissa: -d.mantissa, scale: d.scale }
                } else {
                    d
                };
                Some((d, n + 1))
            },
            None => None,
        }
    } else {
        unsigned_decimal(s)
    }
}

/// Number of an aperture that a D code can select; at least 10.
#[derive(Clone, Copy, Debug, PartialEq, Eq, Structural, PartialOrd, Ord, Hash)]
pub struct ApertureId(pub i32);

/// Wraps an aperture number.
pub fn into_aperture_id(x: i32) -> (r: ApertureId)
    ensures
        r.0 == x,
{
    ApertureId(x)
}

/// Smallest aperture number; lower D codes are operations.
pub const MIN_APERTURE: i32 = 10;

/// `apertureIdentifier`: `D` then a positive integer of at least 10.
pub open spec fn spec_aperture_identifier(s: Seq<u8>) -> Option<(ApertureId, usize)> {
    if s.len() > 0 && s[0] == UPPER_D {
        match spec_positive_integer(s.drop_first()) {
            Some((v, n)) => if v >= MIN_APERTURE {
                Some((ApertureId(v), (n + 1) as usize))
            } else {
                None
            },
            None => None,
        }
    } else {
        None
    }
}

/// Parses an aperture identifier.
pub fn aperture_identifier(s: &[u8]) -> (r: Option<(ApertureId, usize)>)
    ensures
        r == spec_aperture_identifier(s@),
        r matches Some((id, n)) ==> 0 < n <= s@.len() && id.0 >= MIN_APERTURE,
{
    if s.len() == 0 || s[0] != UPPER_D {
        return None;
    }
    let rest = &s[1..s.len()];
    assert(rest@ =~= s@.drop_first());
    match positive_integer(rest) {
        Some((v, n)) => {
            proof {
                lemma_zeros_end_bounds(rest@, 0);
                lemma_run_end_bounds(rest@, zeros_end(rest@, 0));
            }
            if v >= MIN_APERTURE {
                Some((into_aperture_id(v), n + 1))
            } else {
                None
            }
        },
        None => None,
    }
}

/// An ASCII letter.
pub open spec fn is_alpha(b: u8) -> bool {
    (0x41u8 <= b && b <= 0x5au8) || (0x61u8 <= b && b <= 0x7au8)
}

/// A byte that may begin a user name.
pub open spec fn is_name_first(b: u8) -> bool {
    is_alpha(b) || b == UNDERSCORE || b == DOLLAR
}

/// A byte that may follow the first one of a name.
pub open spec fn is_name_rest(b: u8) -> bool {
    is_name_first(b) || is_digit(b) || b == DOT
}

/// End of the run of name bytes that begins at `i`.
pub open spec fn name_end(s: Seq<u8>, i: int) -> int {
    span(s, i, |b: u8| is_name_rest(b))
}

/// A user name of at most `max` bytes; the whole run of name bytes must fit,
/// a longer one is refused rather than cut.
pub open spec fn spec_user_name_shorter_than(s: Seq<u8>, max: nat) -> Option<usize> {
    if max == 0 {
        Some(0)
    } else if s.len() > 0 && is_name_first(s[0]) && name_end(s, 1) <= max {
        Some(name_end(s, 1) as usize)
    } else {
        None
    }
}

/// `userName`: at most 127 bytes, not starting with `.` or a digit.
pub open spec fn spec_user_name(s: Seq<u8>) -> Option<usize> {
    spec_user_name_shorter_than(s, NAME_MAX as nat)
}

/// `systemName`: `.` then a user name, at most 127 bytes in all.
pub open spec fn spec_system_name(s: Seq<u8>) -> Option<usize> {
    if s.len() > 0 && s[0] == DOT {
        match spec_user_name_shorter_than(s.drop_first(), (NAME_MAX - 1) as nat) {
            Some(n) => Some((n + 1) as usize),
            None => None,
        }
    } else {
        None
    }
}

/// `name`: a system name, else a user name.
pub open spec fn spec_name(s: Seq<u8>) -> Option<usize> {
    match spec_system_name(s) {
        Some(n) => Some(n),
        None => spec_user_name(s),
    }
}

fn is_name_first_byte(b: u8) -> (r: bool)
    ensures
        r == is_name_first(b),
{
    (0x41u8 <= b && b <= 0x5au8) || (0x61u8 <= b && b <= 0x7au8) || b == UNDERSCORE || b == DOLLAR
}

fn is_name_rest_byte(b: u8) -> (r: bool)
    ensures
        r == is_name_rest(b),
{
    is_name_first_byte(b) || is_digit_byte(b) || b == DOT
}

/// Parses a user name no longer than `max` bytes; returns its length.
pub fn user_name_shorter_than(s: &[u8], max: usize) -> (r: Option<usize>)
    ensures
        r == spec_user_name_shorter_than(s@, max as nat),
        r matches Some(n) ==> n <= s@.len() && n <= max,
{
    if max == 0 {
        return Some(0);
    }
    if s.len() == 0 || !is_name_first_byte(s[0]) {
        return None;
    }
    proof {
        lemma_span_bounds(s@, 1, |b: u8| is_name_rest(b));
    }
    let mut i: usize = 1;
    while i < s.len() && is_name_rest_byte(s[i])
        invariant
            1 <= i <= s@.len(),
            name_end(s@, i as int) == name_end(s@, 1),
        decreases s@.len() - i,
    {
        i += 1;
    }
    if i <= max {
        Some(i)
    } else {
        None
    }
}

/// Parses a user name; returns its length.
pub fn user_name(s: &[u8]) -> (r: Option<usize>)
    ensures
        r == spec_user_name(s@),
        r matches Some(n) ==> n <= s@.len(),
{
    user_name_shorter_than(s, NAME_MAX)
}

/// Parses a system name; returns its length, leading `.` included.
pub fn system_name(s: &[u8]) -> (r: Option<usize>)
    ensures
        r == spec_system_name(s@),
        r matches Some(n) ==> n <= s@.len(),
{
    if s.len() == 0 || s[0] != DOT {
        return None;
    }
    let rest = &s[1..s.len()];
    assert(rest@ =~= s@.drop_first());
    match user_name_shorter_than(rest, NAME_MAX - 1) {
        Some(n) => Some(n + 1),
        None => None,
    }
}

/// Parses a system or a user name; returns its length.
pub fn name(s: &[u8]) -> (r: Option<usize>)
    ensures
        r == spec_name(s@),
        r matches Some(n) ==> n <= s@.len(),
{
    match system_name(s) {
        Some(n) => Some(n),
        None => user_name(s),
    }
}

/// Text of a field or a string, with a mark telling whether it may hold
/// escape sequences; expanding them is left to `unescape`.
#[derive(Clone, Debug, PartialEq, Eq, Hash)]
pub enum EscapedString {
    /// Text without escape sequences.
    Unescaped(Vec<u8>),
    /// Text that may hold escape sequences.
    Escaped(Vec<u8>),
}

impl EscapedString {
    /// The text as it stands in the file.
    pub open spec fn raw(&self) -> Seq<u8> {
        match self {
            EscapedString::Unescaped(v) => v@,
            EscapedString::Escaped(v) => v@,
        }
    }

    /// Text known to hold no escape sequence.
    pub fn new_unescaped(value: &[u8]) -> (r: Self)
        ensures
            r is Unescaped,
            r.raw() == value@,
    {
        EscapedString::Unescaped(vstd::slice::slice_to_vec(value))
    }

    /// Text that may hold escape sequences.
    pub fn new_escaped(value: &[u8]) -> (r: Self)
        ensures
            r is Escaped,
            r.raw() == value@,
    {
        EscapedString::Escaped(vstd::slice::slice_to_vec(value))
    }

    /// The text with its escape sequences expanded. No escape sequence is
    /// defined yet, so the text comes back as it stands.
    pub fn unescape(&self) -> (r: Vec<u8>)
        ensures
            r@ == self.raw(),
    {
        match self {
            EscapedString::Unescaped(v) => v.clone(),
            EscapedString::Escaped(v) => v.clone(),
        }
    }
}

/// A byte that may stand in a string: anything but `%` and `*`.
pub open spec fn is_string_byte(b: u8) -> bool {
    b != PERCENT && b != STAR
}

/// A byte that may stand in a field: a string byte other than `,`.
pub open spec fn is_field_byte(b: u8) -> bool {
    is_string_byte(b) && b != COMMA
}

/// Parses a field: the longest run of bytes other than `%`, `*` and `,`.
pub fn field(s: &[u8]) -> (r: (EscapedString, usize))
    ensures
        r.1 == span(s@, 0, |b: u8| is_field_byte(b)),
        r.0 is Unescaped,
        r.0.raw() == s@.subrange(0, r.1 as int),
{
    proof {
        lemma_span_bounds(s@, 0, |b: u8| is_field_byte(b));
    }
    let mut i: usize = 0;
    while i < s.len() && s[i] != PERCENT && s[i] != STAR && s[i] != COMMA
        invariant
            0 <= i <= s@.len(),
            span(s@, i as int, |b: u8| is_field_byte(b)) == span(s@, 0, |b: u8| is_field_byte(b)),
        decreases s@.len() - i,
    {
        i += 1;
    }
    let text = &s[0..i];
    assert(text@ =~= s@.subrange(0, i as int));
    (EscapedString::new_unescaped(text), i)
}

/// Parses a string: the longest run of bytes other than `%` and `*`.
pub fn string(s: &[u8]) -> (r: (EscapedString, usize))
    ensures
        r.1 == span(s@, 0, |b: u8| is_string_byte(b)),
        r.0 is Unescaped,
        r.0.raw() == s@.subrange(0, r.1 as int),
{
    proof {
        lemma_span_bounds(s@, 0, |b: u8| is_string_byte(b));
    }
    let mut i: usize = 0;
    while i < s.len() && s[i] != PERCENT && s[i] != STAR
        invariant
            0 <= i <= s@.len(),
            span(s@, i as int, |b: u8| is_string_byte(b)) == span(s@, 0, |b: u8| is_string_byte(b)),
        decreases s@.len() - i,
    {
        i += 1;
    }
    let text = &s[0..i];
    assert(text@ =~= s@.subrange(0, i as int));
    (EscapedString::new_unescaped(text), i)
}

/// A span over bytes that all satisfy `p` reaches the end of the input.
pub proof fn lemma_span_to_end(s: Seq<u8>, i: int, p: spec_fn(u8) -> bool)
    requires
        0 <= i <= s.len(),
        forall|j: int| i <= j < s.len() ==> p(#[trigger] s[j]),
    ensures
        span(s, i, p) == s.len(),
    decreases s.len() - i,
{
    if i < s.len() {
        lemma_span_to_end(s, i + 1, p);
    }
}

/// A positive integer is never zero, and no sign may stand before it;
/// `0` is an unsigned integer all the same.
pub proof fn lemma_positive_integer(s: Seq<u8>)
    requires
        s.len() <= usize::MAX,
    ensures
        spec_positive_integer(s) matches Some((v, _)) ==> v > 0,
        s.len() > 0 && is_sign(s[0]) ==> spec_positive_integer(s) is None,
        spec_positive_integer(seq![DIGIT_0]) is None,
        spec_unsigned_integer(seq![DIGIT_0]) == Some((0i32, 1usize)),
{
    let z = zeros_end(s, 0);
    lemma_span_bounds(s, 0, |b: u8| b == DIGIT_0);
    lemma_span_bounds(s, z, |b: u8| is_digit(b));
    let e = run_end(s, z);
    if e > z {
        let run = s.subrange(z, e);
        assert(run[0] == s[z]);
        assert(s[z] != DIGIT_0);
        lemma_fold_digits_grows((run[0] - DIGIT_0) as nat, run.drop_first());
    }
    let zero = seq![DIGIT_0];
    assert(zeros_end(zero, 1) == 1);
    assert(zeros_end(zero, 0) == 1);
    assert(run_end(zero, 1) == 1);
    assert(run_end(zero, 0) == 1);
    assert(zero.subrange(0, 1) =~= zero);
    assert(zero.drop_first().len() == 0);
    assert(digits_value(zero) == 0);
}

/// Every byte after the first of `s` may stand in a name.
pub open spec fn name_tail(s: Seq<u8>) -> bool {
    forall|j: int| 1 <= j < s.len() ==> is_name_rest(#[trigger] s[j])
}

/// A user name is accepted up to 127 bytes and refused from 128 on: the
/// length is bounded while matching, never cut. It may not begin with `.`
/// or a digit.
pub proof fn lemma_user_name_length(s: Seq<u8>)
    requires
        s.len() <= usize::MAX,
    ensures
        s.len() > 0 && is_name_first(s[0]) && name_tail(s) ==> spec_user_name(s) == (if s.len()
            <= NAME_MAX {
            Some(s.len() as usize)
        } else {
            None
        }),
        s.len() > 0 && (s[0] == DOT || is_digit(s[0])) ==> spec_user_name(s) is None,
{
    if s.len() > 0 && is_name_first(s[0]) && name_tail(s) {
        lemma_span_to_end(s, 1, |b: u8| is_name_rest(b));
    }
}

/// A system name is `.` and then at most 126 bytes, 127 in all; one more
/// and it is refused.
pub proof fn lemma_system_name_length(s: Seq<u8>)
    requires
        s.len() <= usize::MAX,
    ensures
        s.len() > 1 && s[0] == DOT && is_name_first(s[1]) && name_tail(s.drop_first())
            ==> spec_system_name(s) == (if s.len() <= NAME_MAX {
            Some(s.len() as usize)
        } else {
            None
        }),
        s.len() > 0 && s[0] != DOT ==> spec_system_name(s) is None,
{
    if s.len() > 1 && s[0] == DOT && is_name_first(s[1]) && name_tail(s.drop_first()) {
        lemma_span_to_end(s.drop_first(), 1, |b: u8| is_name_rest(b));
    }
}

/// An aperture identifier is at least 10: `D1` to `D9` are operations.
pub proof fn lemma_aperture_identifier_at_least_ten(s: Seq<u8>)
    ensures
        spec_aperture_identifier(s) matches Some((id, _)) ==> id.0 >= MIN_APERTURE,
        s.len() > 0 && s[0] == UPPER_D && (spec_positive_integer(s.drop_first()) matches Some((v, _))
            && v < MIN_APERTURE) ==> spec_aperture_identifier(s) is None,
{
}

/// The `k` last decimal digits of `n`, most significant first.
pub open spec fn digits_of(n: nat, k: nat) -> Seq<u8>
    decreases k,
{
    if k == 0 {
        Seq::empty()
    } else {
        digits_of(n / 10, (k - 1) as nat).push((n % 10 + DIGIT_0) as u8)
    }
}

/// How many decimal digits `n` has; zero has one.
pub open spec fn digit_count(n: nat) -> nat
    decreases n,
{
    if n < 10 {
        1
    } else {
        1 + digit_count(n / 10)
    }
}

/// How a decimal is written: `-` when it is negative, the digits of its
/// integer part, and when it has decimals, `.` and exactly `scale` digits.
pub open spec fn render_decimal(d: Decimal) -> Seq<u8> {
    let m: int = if d.mantissa < 0 {
        -d.mantissa
    } else {
        d.mantissa as int
    };
    let p = vstd::arithmetic::power::pow(10, d.scale as nat);
    let whole = (m / p) as nat;
    let sign = if d.mantissa < 0 {
        seq![MINUS]
    } else {
        Seq::empty()
    };
    let digits = digits_of(whole, digit_count(whole));
    if d.scale == 0 {
        sign + digits
    } else {
        sign + digits + seq![DOT] + digits_of((m % p) as nat, d.scale as nat)
    }
}

proof fn lemma_span_exact(s: Seq<u8>, i: int, e: int, p: spec_fn(u8) -> bool)
    requires
        0 <= i <= e <= s.len(),
        forall|j: int| i <= j < e ==> p(#[trigger] s[j]),
        e == s.len() || !p(s[e]),
    ensures
        span(s, i, p) == e,
    decreases e - i,
{
    if i < e {
        lemma_span_exact(s, i + 1, e, p);
    }
}

proof fn lemma_digits_of_shape(n: nat, k: nat)
    ensures
        digits_of(n, k).len() == k,
        forall|j: int| 0 <= j < k ==> is_digit(#[trigger] digits_of(n, k)[j]),
    decreases k,
{
    if k > 0 {
        lemma_digits_of_shape(n / 10, (k - 1) as nat);
        let s = digits_of(n, k);
        assert forall|j: int| 0 <= j < k implies is_digit(#[trigger] s[j]) by {
            if j < k - 1 {
                assert(s[j] == digits_of(n / 10, (k - 1) as nat)[j]);
            }
        }
    }
}

proof fn lemma_fold_push(acc: nat, s: Seq<u8>, x: u8)
    requires
        is_digit(x),
    ensures
        fold_digits(acc, s.push(x)) == fold_digits(acc, s) * 10 + (x - DIGIT_0),
    decreases s.len(),
{
    if s.len() == 0 {
        assert(s.push(x)[0] == x);
        assert(s.push(x).drop_first() =~= Seq::<u8>::empty());
        assert(fold_digits(acc * 10 + (x - DIGIT_0) as nat, Seq::<u8>::empty()) == acc * 10 + (x
            - DIGIT_0) as nat);
    } else {
        assert(s.push(x)[0] == s[0]);
        assert(s.push(x).drop_first() =~= s.drop_first().push(x));
        lemma_fold_push(acc * 10 + (s[0] - DIGIT_0) as nat, s.drop_first(), x);
    }
}

proof fn lemma_fold_digits_of(acc: nat, n: nat, k: nat)
    requires
        n < vstd::arithmetic::power::pow(10, k),
    ensures
        fold_digits(acc, digits_of(n, k)) == acc * vstd::arithmetic::power::pow(10, k) + n,
    decreases k,
{
    reveal(vstd::arithmetic::power::pow);
    let p = vstd::arithmetic::power::pow(10, k);
    if k == 0 {
        assert(p == 1);
    } else {
        let q = vstd::arithmetic::power::pow(10, (k - 1) as nat);
        assert(p == 10 * q);
        vstd::arithmetic::div_mod::lemma_fundamental_div_mod(n as int, 10);
        assert(n / 10 < q) by (nonlinear_arith)
            requires
                n < 10 * q,
                n == 10 * (n / 10) + n % 10,
                0 <= n % 10,
        ;
        lemma_fold_digits_of(acc, n / 10, (k - 1) as nat);
        lemma_fold_push(acc, digits_of(n / 10, (k - 1) as nat), (n % 10 + DIGIT_0) as u8);
        assert(fold_digits(acc, digits_of(n, k)) == (acc * q + n / 10) * 10 + n % 10);
        assert((acc * q + n / 10) * 10 + n % 10 == acc * p + n) by (nonlinear_arith)
            requires
                p == 10 * q,
                n == 10 * (n / 10) + n % 10,
        ;
    }
}

proof fn lemma_digit_count(n: nat)
    ensures
        digit_count(n) >= 1,
        n < vstd::arithmetic::power::pow(10, digit_count(n)),
    decreases n,
{
    reveal(vstd::arithmetic::power::pow);
    if n >= 10 {
        lemma_digit_count(n / 10);
        let c = digit_count(n / 10);
        let q = vstd::arithmetic::power::pow(10, c);
        assert(vstd::arithmetic::power::pow(10, c + 1) == 10 * q);
        vstd::arithmetic::div_mod::lemma_fundamental_div_mod(n as int, 10);
        assert(n < 10 * q) by (nonlinear_arith)
            requires
                n / 10 < q,
                n == 10 * (n / 10) + n % 10,
                n % 10 < 10,
        ;
    } else {
        vstd::arithmetic::power::lemma_pow1(10);
    }
}

/// Writing a decimal and parsing it back gives the same decimal: the same
/// mantissa and the same number of decimals, hence the same value.
#[verifier::rlimit(40)]
pub proof fn lemma_decimal_round_trip(d: Decimal)
    requires
        d.mantissa >= -MANTISSA_MAX,
        render_decimal(d).len() <= usize::MAX,
    ensures
        spec_decimal(render_decimal(d)) == Some((d, render_decimal(d).len() as usize)),
{
    let m: int = if d.mantissa < 0 {
        -d.mantissa
    } else {
        d.mantissa as int
    };
    let k = d.scale as nat;
    let p = vstd::arithmetic::power::pow(10, k);
    vstd::arithmetic::power::lemma_pow_positive(10, k);
    vstd::arithmetic::div_mod::lemma_fundamental_div_mod(m, p);
    vstd::arithmetic::div_mod::lemma_div_pos_is_pos(m, p);
    let whole = (m / p) as nat;
    let frac = (m % p) as nat;
    let c = digit_count(whole);
    lemma_digit_count(whole);
    let digits = digits_of(whole, c);
    let fdigits = digits_of(frac, k);
    lemma_digits_of_shape(whole, c);
    lemma_digits_of_shape(frac, k);
    lemma_fold_digits_of(0, whole, c);
    lemma_fold_digits_of(whole, frac, k);
    let u = if k == 0 {
        digits
    } else {
        digits + seq![DOT] + fdigits
    };
    let a = c as int;
    assert(u.subrange(0, a) =~= digits);
    lemma_span_exact(u, 0, a, |b: u8| is_digit(b));
    assert(fold_digits(0, digits) == whole);
    if k == 0 {
        reveal(vstd::arithmetic::power::pow);
        assert(p == 1);
        assert(fold_digits(whole, Seq::empty()) == whole);
        assert(spec_unsigned_decimal(u) == Some((Decimal { mantissa: m as i64, scale: d.scale }, u.len() as usize)));
    } else {
        let b = u.len() as int;
        assert(u[a] == DOT);
        assert(u.subrange(a + 1, b) =~= fdigits);
        lemma_span_exact(u, a + 1, b, |x: u8| is_digit(x));
        assert(fold_digits(whole, fdigits) == m) by (nonlinear_arith)
            requires
                fold_digits(whole, fdigits) == whole * p + frac,
                m == p * (m / p) + m % p,
                whole == m / p,
                frac == m % p,
        ;
        assert(spec_unsigned_decimal(u) == Some((Decimal { mantissa: m as i64, scale: d.scale }, u.len() as usize)));
    }
    let s = render_decimal(d);
    if d.mantissa < 0 {
        assert(s =~= seq![MINUS] + u);
        assert(s.drop_first() =~= u);
    } else {
        assert(s =~= u);
        assert(is_digit(s[0]));
    }
}

/// `k` zero digits.
pub open spec fn zeros(k: nat) -> Seq<u8> {
    Seq::new(k, |i: int| DIGIT_0)
}

/// A number with fewer digits than asked for is padded with zeros in front.
proof fn lemma_leading_zeros(n: nat, base: nat, extra: nat)
    requires
        n < vstd::arithmetic::power::pow(10, base),
    ensures
        digits_of(n, base + extra) == zeros(extra) + digits_of(n, base),
    decreases base + extra,
{
    reveal(vstd::arithmetic::power::pow);
    if extra == 0 {
        assert(zeros(0) + digits_of(n, base) =~= digits_of(n, base));
    } else if base == 0 {
        assert(n == 0);
        lemma_leading_zeros(0, 0, (extra - 1) as nat);
        assert(digits_of(0, extra) == digits_of(0, (extra - 1) as nat).push(DIGIT_0));
        assert(zeros(extra) + digits_of(0, 0) =~= (zeros((extra - 1) as nat) + digits_of(0, 0)).push(
            DIGIT_0,
        ));
    } else {
        let q = vstd::arithmetic::power::pow(10, (base - 1) as nat);
        vstd::arithmetic::div_mod::lemma_fundamental_div_mod(n as int, 10);
        assert(n / 10 < q) by (nonlinear_arith)
            requires
                n < 10 * q,
                n == 10 * (n / 10) + n % 10,
                0 <= n % 10,
        ;
        lemma_leading_zeros(n / 10, (base - 1) as nat, extra);
        assert((base + extra - 1) as nat == ((base - 1) as nat + extra) as nat);
        assert(zeros(extra) + digits_of(n, base) =~= (zeros(extra) + digits_of(
            n / 10,
            (base - 1) as nat,
        )).push((n % 10 + DIGIT_0) as u8));
    }
}

/// Appends the `k` last digits of `n`, `k` at most 20.
fn push_digits(out: &mut Vec<u8>, n: u64, k: usize)
    requires
        k <= 20,
    ensures
        final(out)@ == old(out)@ + digits_of(n as nat, k as nat),
    decreases k,
{
    if k == 0 {
        assert(old(out)@ + Seq::<u8>::empty() =~= old(out)@);
        return;
    }
    push_digits(out, n / 10, k - 1);
    out.push((n % 10) as u8 + DIGIT_0);
    assert(final(out)@ =~= old(out)@ + digits_of(n as nat, k as nat));
}

proof fn lemma_digit_count_bound(x: nat, j: nat)
    requires
        x < vstd::arithmetic::power::pow(10, j),
        j >= 1,
    ensures
        digit_count(x) <= j,
    decreases x,
{
    reveal(vstd::arithmetic::power::pow);
    if x >= 10 {
        if j == 1 {
            assert(vstd::arithmetic::power::pow(10, 1) == 10 * vstd::arithmetic::power::pow(10, 0));
        } else {
            let q = vstd::arithmetic::power::pow(10, (j - 1) as nat);
            vstd::arithmetic::div_mod::lemma_fundamental_div_mod(x as int, 10);
            assert(x / 10 < q) by (nonlinear_arith)
                requires
                    x < 10 * q,
                    x == 10 * (x / 10) + x % 10,
                    0 <= x % 10,
            ;
            lemma_digit_count_bound(x / 10, (j - 1) as nat);
        }
    }
}

/// How many decimal digits `n` has.
fn count_digits(n: u64) -> (r: usize)
    ensures
        r == digit_count(n as nat),
        r <= 20,
    decreases n,
{
    if n < 10 {
        1
    } else {
        let c = count_digits(n / 10);
        proof {
            reveal_with_fuel(vstd::arithmetic::power::pow, 20);
            assert(vstd::arithmetic::power::pow(10, 19) == 10_000_000_000_000_000_000);
            lemma_digit_count_bound((n / 10) as nat, 19);
        }
        1 + c
    }
}

impl Decimal {
    /// The decimal as it is written: `-` when it is negative, the integer
    /// part, and when it has decimals, `.` and exactly `scale` digits.
    pub fn render(&self) -> (r: Vec<u8>)
        requires
            self.mantissa >= -MANTISSA_MAX,
        ensures
            r@ == render_decimal(*self),
    {
        let m: u64 = if self.mantissa < 0 {
            (-self.mantissa) as u64
        } else {
            self.mantissa as u64
        };
        let mut out: Vec<u8> = Vec::new();
        if self.mantissa < 0 {
            out.push(MINUS);
        }
        proof {
            reveal_with_fuel(vstd::arithmetic::power::pow, 20);
        }
        let (whole, frac) = if self.scale <= 19 {
            let mut p: u64 = 1;
            let mut k: usize = 0;
            while k < self.scale
                invariant
                    k <= self.scale <= 19,
                    p as int == vstd::arithmetic::power::pow(10, k as nat),
                decreases self.scale - k,
            {
                proof {
                    reveal(vstd::arithmetic::power::pow);
                    vstd::arithmetic::power::lemma_pow_increases(10, (k + 1) as nat, 19);
                    reveal_with_fuel(vstd::arithmetic::power::pow, 20);
                }
                p = p * 10;
                k += 1;
            }
            (m / p, m % p)
        } else {
            proof {
                let p = vstd::arithmetic::power::pow(10, self.scale as nat);
                vstd::arithmetic::power::lemma_pow_increases(10, 19, self.scale as nat);
                assert(vstd::arithmetic::power::pow(10, 19) == 10_000_000_000_000_000_000);
                vstd::arithmetic::div_mod::lemma_basic_div(m as int, p);
                vstd::arithmetic::div_mod::lemma_small_mod(m as nat, p as nat);
            }
            (0, m)
        };
        let ghost head = out@;
        let c = count_digits(whole);
        push_digits(&mut out, whole, c);
        if self.scale > 0 {
            out.push(DOT);
            let ghost before = out@;
            if self.scale <= 20 {
                push_digits(&mut out, frac, self.scale);
            } else {
                let extra = self.scale - 20;
                let mut j: usize = 0;
                while j < extra
                    invariant
                        j <= extra,
                        out@ == before + zeros(j as nat),
                    decreases extra - j,
                {
                    out.push(DIGIT_0);
                    j += 1;
                    assert(out@ =~= before + zeros(j as nat));
                }
                push_digits(&mut out, frac, 20);
                proof {
                    assert(vstd::arithmetic::power::pow(10, 20) == 100_000_000_000_000_000_000);
                    lemma_leading_zeros(frac as nat, 20, extra as nat);
                    assert(out@ =~= before + digits_of(frac as nat, self.scale as nat));
                }
            }
            assert(out@ =~= render_decimal(*self));
        } else {
            assert(out@ =~= render_decimal(*self));
        }
        out
    }
}

} // verus!
