//! Compact duration strings: a run of decimal digits followed by a unit
//! token (`ns`, `us`, `ms`, `s` or `m`).
use vstd::arithmetic::div_mod::{
    lemma_div_is_ordered, lemma_div_multiples_vanish, lemma_fundamental_div_mod,
    lemma_fundamental_div_mod_converse,
};
use vstd::prelude::*;

use std::num::ParseIntError;
use std::time::Duration;

verus! {

pub const NANOS_PER_SEC: u64 = 1_000_000_000;

/// True for the ASCII decimal digits `0` through `9`.
pub open spec fn is_dec_digit(c: char) -> bool {
    '0' <= c && c <= '9'
}

/// Number of decimal digits at the front of `s`.
pub open spec fn leading_digits(s: Seq<char>) -> nat
    decreases s.len(),
{
    if s.len() == 0 {
        0
    } else if is_dec_digit(s[0]) {
        1 + leading_digits(s.drop_first())
    } else {
        0
    }
}

/// Decimal value of a sequence of digits, most significant first.
pub open spec fn decimal_value(s: Seq<char>) -> nat
    decreases s.len(),
{
    if s.len() == 0 {
        0
    } else {
        decimal_value(s.drop_last()) * 10 + ((s.last() as u32) - ('0' as u32)) as nat
    }
}

/// The magnitude text: the digits before the unit token.
pub open spec fn magnitude_text(s: Seq<char>) -> Seq<char> {
    s.subrange(0, leading_digits(s) as int)
}

/// The unit token: everything from the first non-digit on.
pub open spec fn unit_text(s: Seq<char>) -> Seq<char> {
    s.subrange(leading_digits(s) as int, s.len() as int)
}

/// The time span named by unit token `tok` with magnitude `n`, if `tok` is a known unit.
pub open spec fn unit_for(tok: Seq<char>, n: u64) -> Option<TimeUnit> {
    if tok == seq!['n', 's'] {
        Some(TimeUnit::Nanos(n))
    } else if tok == seq!['u', 's'] {
        Some(TimeUnit::Micros(n))
    } else if tok == seq!['m', 's'] {
        Some(TimeUnit::Millis(n))
    } else if tok == seq!['s'] {
        Some(TimeUnit::Secs(n))
    } else if tok == seq!['m'] {
        Some(TimeUnit::Mins(n))
    } else {
        None
    }
}

/// Whether `s` has a magnitude that is present and fits in a `u64`.
pub open spec fn magnitude_ok(s: Seq<char>) -> bool {
    0 < leading_digits(s) && decimal_value(magnitude_text(s)) <= u64::MAX
}

/// The value that `s` parses to, when it is well formed.
pub open spec fn parsed(s: Seq<char>) -> Option<TimeUnit> {
    if leading_digits(s) < s.len() && magnitude_ok(s) {
        unit_for(unit_text(s), decimal_value(magnitude_text(s)) as u64)
    } else {
        None
    }
}

/// The `Duration` with `secs` whole seconds and `nanos` further nanoseconds.
pub uninterp spec fn span(secs: u64, nanos: u32) -> Duration;

#[verifier::external_type_specification]
#[verifier::external_body]
pub struct ExParseIntError(ParseIntError);

/// A magnitude followed by its unit.
#[derive(Debug, Clone, Copy, PartialEq, Eq)]
pub enum TimeUnit {
    Nanos(u64),
    Micros(u64),
    Millis(u64),
    Secs(u64),
    Mins(u64),
}

/// Why a duration string was refused.
#[derive(Debug, PartialEq)]
pub enum ParseDurError {
    /// The string holds digits only.
    MissingUnit,
    /// The digits before the unit are absent or too large.
    InvalidNum(ParseIntError),
    /// The unit token is not one of the known units.
    InvalidUnit,
}

/// Relies on `ParseIntError`'s `Display`: the text describing why digits did
/// not parse.
#[verifier::external_body]
fn int_error_text(e: &ParseIntError) -> String {
    e.to_string()
}

impl ParseDurError {
    /// A sentence saying what is wrong with the duration string. The texts
    /// are fixed as they stand, the unknown-unit one spelled "in valid", so
    /// that anything matching on them keeps working.
    pub fn message(&self) -> (r: String)
        ensures
            self is MissingUnit ==> r@ == "Duration unit is missing"@,
            self is InvalidUnit ==> r@ == "Duration unit is in valid"@,
    {
        match self {
            ParseDurError::MissingUnit => "Duration unit is missing".to_owned(),
            ParseDurError::InvalidNum(e) => int_error_text(e),
            ParseDurError::InvalidUnit => "Duration unit is in valid".to_owned(),
        }
    }
}

impl From<ParseIntError> for ParseDurError {
    fn from(err: ParseIntError) -> (r: ParseDurError)
        ensures
            r == ParseDurError::InvalidNum(err),
    {
        ParseDurError::InvalidNum(err)
    }
}

impl vstd::std_specs::convert::FromSpecImpl<ParseIntError> for ParseDurError {
    open spec fn obeys_from_spec() -> bool {
        true
    }

    open spec fn from_spec(v: ParseIntError) -> ParseDurError {
        ParseDurError::InvalidNum(v)
    }
}

/// Relies on `u64::from_str`: a non-empty run of ASCII digits parses to its
/// decimal value when that value fits in a `u64`, and is an error otherwise.
#[verifier::external_body]
fn parse_u64(s: &str) -> (r: Result<u64, ParseIntError>)
    requires
        forall|i: int| 0 <= i < s@.len() ==> is_dec_digit(#[trigger] s@[i]),
    ensures
        r is Ok <==> (s@.len() > 0 && decimal_value(s@) <= u64::MAX),
        r is Ok ==> r->Ok_0 == decimal_value(s@),
{
    s.parse::<u64>()
}

/// Relies on `Duration::new`, which carries no excess here since `nanos` is
/// below one second.
#[verifier::external_body]
fn duration_new(secs: u64, nanos: u32) -> (r: Duration)
    requires
        nanos < NANOS_PER_SEC,
    ensures
        r == span(secs, nanos),
{
    Duration::new(secs, nanos)
}

/// Proof that the leading digits of `s` are exactly the first `k` characters
/// when those are digits and the next one is not (or `s` ends there).
proof fn lemma_leading_digits(s: Seq<char>, k: int)
    requires
        0 <= k <= s.len(),
        forall|j: int| 0 <= j < k ==> is_dec_digit(#[trigger] s[j]),
        k == s.len() || !is_dec_digit(s[k]),
    ensures
        leading_digits(s) == k,
    decreases k,
{
    if k > 0 {
        let t = s.drop_first();
        assert forall|j: int| 0 <= j < k - 1 implies is_dec_digit(#[trigger] t[j]) by {
            assert(t[j] == s[j + 1]);
        }
        lemma_leading_digits(t, k - 1);
    } else if s.len() > 0 {
        assert(!is_dec_digit(s[0]));
    }
}

/// The known unit named by the whole of `tok`, with magnitude `n`.
fn unit_token(tok: &str, n: u64) -> (r: Option<TimeUnit>)
    ensures
        r == unit_for(tok@, n),
{
    let len = tok.unicode_len();
    if len == 1 {
        let c = tok.get_char(0);
        assert(tok@ == seq![c]);
        if c == 's' {
            Some(TimeUnit::Secs(n))
        } else if c == 'm' {
            Some(TimeUnit::Mins(n))
        } else {
            None
        }
    } else if len == 2 {
        let c0 = tok.get_char(0);
        let c1 = tok.get_char(1);
        assert(tok@ == seq![c0, c1]);
        if c1 != 's' {
            None
        } else if c0 == 'n' {
            Some(TimeUnit::Nanos(n))
        } else if c0 == 'u' {
            Some(TimeUnit::Micros(n))
        } else if c0 == 'm' {
            Some(TimeUnit::Millis(n))
        } else {
            None
        }
    } else {
        assert(tok@.len() != 1 && tok@.len() != 2);
        assert(seq!['n', 's'].len() == 2 && seq!['s'].len() == 1);
        None
    }
}

impl TimeUnit {
    /// The span in nanoseconds.
    pub open spec fn total_nanos(self) -> nat {
        match self {
            TimeUnit::Nanos(n) => n as nat,
            TimeUnit::Micros(n) => n as nat * 1_000,
            TimeUnit::Millis(n) => n as nat * 1_000_000,
            TimeUnit::Secs(n) => n as nat * 1_000_000_000,
            TimeUnit::Mins(n) => n as nat * 60 * 1_000_000_000,
        }
    }

    /// Whole seconds in the span.
    pub open spec fn whole_secs(self) -> nat {
        self.total_nanos() / (NANOS_PER_SEC as nat)
    }

    /// Nanoseconds beyond the whole seconds.
    pub open spec fn subsec_nanos(self) -> nat {
        self.total_nanos() % (NANOS_PER_SEC as nat)
    }

    /// The span's whole seconds fit in a `u64` (only minutes can fail this).
    pub open spec fn fits(self) -> bool {
        self.whole_secs() <= u64::MAX
    }

    /// Whether the span's whole seconds fit in a `u64`.
    pub fn is_representable(&self) -> (r: bool)
        ensures
            r == self.fits(),
    {
        let n = match *self {
            TimeUnit::Nanos(n) => n,
            TimeUnit::Micros(n) => n,
            TimeUnit::Millis(n) => n,
            TimeUnit::Secs(n) => n,
            TimeUnit::Mins(n) => n,
        };
        proof {
            let x = n as int;
            lemma_div_multiples_vanish(x, 1_000_000_000);
            assert(1_000_000_000 * x == x * 1_000_000_000);
            if !(self is Mins) {
                assert(x * 1_000_000 <= x * 1_000_000_000) by (nonlinear_arith)
                    requires
                        x >= 0,
                ;
                assert(x * 1_000 <= x * 1_000_000_000) by (nonlinear_arith)
                    requires
                        x >= 0,
                ;
                assert(x <= x * 1_000_000_000) by (nonlinear_arith)
                    requires
                        x >= 0,
                ;
                lemma_div_is_ordered(self.total_nanos() as int, x * 1_000_000_000, 1_000_000_000);
            }
            lemma_fundamental_div_mod_converse(x * 60 * 1_000_000_000, 1_000_000_000, x * 60, 0);
        }
        match *self {
            TimeUnit::Mins(n) => n <= u64::MAX / 60,
            _ => true,
        }
    }

    /// The span as a `Duration`.
    pub fn to_duration(self) -> (r: Duration)
        requires
            self.fits(),
        ensures
            r == span(self.whole_secs() as u64, self.subsec_nanos() as u32),
    {
        let (secs, nanos) = match self {
            TimeUnit::Nanos(n) => split_units(n, NANOS_PER_SEC, 1),
            TimeUnit::Micros(n) => split_units(n, 1_000_000, 1_000),
            TimeUnit::Millis(n) => split_units(n, 1_000, 1_000_000),
            TimeUnit::Secs(n) => split_units(n, 1, NANOS_PER_SEC),
            TimeUnit::Mins(n) => {
                assert(self.whole_secs() == n as nat * 60) by {
                    lemma_fundamental_div_mod_converse(
                        n as int * 60 * 1_000_000_000,
                        1_000_000_000,
                        n as int * 60,
                        0,
                    );
                }
                split_units(n * 60, 1, NANOS_PER_SEC)
            },
        };
        duration_new(secs, nanos)
    }

    /// Parses `<digits><unit>`.
    pub fn from_str(val: &str) -> (r: Result<TimeUnit, ParseDurError>)
        ensures
            match r {
                Ok(t) => parsed(val@) == Some(t),
                Err(ParseDurError::MissingUnit) => leading_digits(val@) == val@.len(),
                Err(ParseDurError::InvalidNum(_)) => leading_digits(val@) < val@.len()
                    && !magnitude_ok(val@),
                Err(ParseDurError::InvalidUnit) => leading_digits(val@) < val@.len()
                    && magnitude_ok(val@) && parsed(val@) is None,
            },
    {
        let len = val.unicode_len();
        let mut idx: usize = 0;
        while idx < len && dec_digit(val.get_char(idx))
            invariant
                idx <= len,
                len == val@.len(),
                forall|j: int| 0 <= j < idx ==> is_dec_digit(#[trigger] val@[j]),
            decreases len - idx,
        {
            idx = idx + 1;
        }
        proof {
            lemma_leading_digits(val@, idx as int);
        }
        if idx == len {
            return Err(ParseDurError::MissingUnit);
        }
        let num = val.substring_char(0, idx);
        let unit = val.substring_char(idx, len);
        assert(num@ == magnitude_text(val@));
        assert(unit@ == unit_text(val@));
        let n = match parse_u64(num) {
            Ok(n) => n,
            Err(e) => return Err(ParseDurError::InvalidNum(e)),
        };
        match unit_token(unit, n) {
            Some(t) => Ok(t),
            None => Err(ParseDurError::InvalidUnit),
        }
    }
}

/// Splits `n` units of `per_unit` nanoseconds each (with `per_unit` dividing a
/// second) into whole seconds and the nanoseconds beyond them.
fn split_units(n: u64, units_per_sec: u64, per_unit: u64) -> (r: (u64, u32))
    requires
        0 < units_per_sec,
        units_per_sec * per_unit == NANOS_PER_SEC,
    ensures
        r.0 as nat == (n as nat * per_unit as nat) / (NANOS_PER_SEC as nat),
        r.1 as nat == (n as nat * per_unit as nat) % (NANOS_PER_SEC as nat),
        r.1 < NANOS_PER_SEC,
{
    let q = n / units_per_sec;
    let rem = n % units_per_sec;
    assert(rem * per_unit < NANOS_PER_SEC) by (nonlinear_arith)
        requires
            rem < units_per_sec,
            units_per_sec * per_unit == NANOS_PER_SEC,
    ;
    proof {
        let x = n as int * per_unit as int;
        lemma_fundamental_div_mod(n as int, units_per_sec as int);
        assert(n as int * per_unit as int == q as int * NANOS_PER_SEC as int + rem as int * per_unit as int) by (nonlinear_arith)
            requires
                n as int == units_per_sec as int * q as int + rem as int,
                units_per_sec * per_unit == NANOS_PER_SEC,
        ;
        lemma_fundamental_div_mod_converse(
            x,
            NANOS_PER_SEC as int,
            q as int,
            rem as int * per_unit as int,
        );
    }
    (q, (rem * per_unit) as u32)
}

impl std::str::FromStr for TimeUnit {
    type Err = ParseDurError;

    fn from_str(val: &str) -> Result<TimeUnit, ParseDurError> {
        TimeUnit::from_str(val)
    }
}

fn dec_digit(c: char) -> (r: bool)
    ensures
        r == is_dec_digit(c),
{
    '0' <= c && c <= '9'
}

} // verus!
