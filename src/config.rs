//! The run's configuration, and how it is built from its textual settings.
use vstd::prelude::*;

use std::num::ParseIntError;
use std::time::Duration;

use crate::dur::{decimal_value, is_dec_digit, parsed, span, ParseDurError, TimeUnit};

verus! {

/// Hosts to probe, in order, with the settings shared by all of them.
#[derive(Debug)]
pub struct Config {
    pub hosts: Vec<String>,
    /// Longest time one probe may take.
    pub timeout: Duration,
    /// Most probes made per host.
    pub retries: usize,
    /// Pause after each failed probe.
    pub interval: Duration,
}

/// Why the settings do not make a configuration.
#[derive(Debug, PartialEq)]
pub enum ConfigError {
    /// No host list was given.
    MissingHosts,
    /// The timeout is not a duration.
    Timeout(ParseDurError),
    /// The retry count is not a non-negative integer.
    Retries(ParseIntError),
    /// The interval is not a duration.
    Interval(ParseDurError),
    /// The timeout is longer than a `Duration` can hold.
    TimeoutTooLong,
    /// The interval is longer than a `Duration` can hold.
    IntervalTooLong,
}

/// The pieces of `s` between commas, in order; `s` without a comma is one piece.
pub open spec fn split_commas(s: Seq<char>) -> Seq<Seq<char>>
    decreases s.len(),
{
    if s.len() == 0 {
        seq![Seq::empty()]
    } else {
        let p = split_commas(s.drop_last());
        if s.last() == ',' {
            p.push(Seq::empty())
        } else {
            p.update(p.len() - 1, p.last().push(s.last()))
        }
    }
}

/// The characters with Unicode's White_Space property.
pub open spec fn is_white_space(c: char) -> bool {
    let u = c as u32;
    (0x09 <= u && u <= 0x0D) || u == 0x20 || u == 0x85 || u == 0xA0 || u == 0x1680 || (0x2000
        <= u && u <= 0x200A) || u == 0x2028 || u == 0x2029 || u == 0x202F || u == 0x205F || u
        == 0x3000
}

/// `s` without its leading white space.
pub open spec fn trim_start(s: Seq<char>) -> Seq<char>
    decreases s.len(),
{
    if s.len() > 0 && is_white_space(s[0]) {
        trim_start(s.drop_first())
    } else {
        s
    }
}

/// `s` without its trailing white space.
pub open spec fn trim_end(s: Seq<char>) -> Seq<char>
    decreases s.len(),
{
    if s.len() > 0 && is_white_space(s.last()) {
        trim_end(s.drop_last())
    } else {
        s
    }
}

/// `s` without leading and trailing white space.
pub open spec fn trimmed(s: Seq<char>) -> Seq<char> {
    trim_end(trim_start(s))
}

/// The digits of an unsigned integer's text, after an optional leading `+`.
pub open spec fn unsigned_digits(s: Seq<char>) -> Seq<char> {
    if s.len() > 0 && s[0] == '+' {
        s.drop_first()
    } else {
        s
    }
}

/// Whether `s` is the text of an unsigned integer that fits in a `usize`.
pub open spec fn is_usize_text(s: Seq<char>) -> bool {
    let d = unsigned_digits(s);
    &&& d.len() > 0
    &&& forall|i: int| 0 <= i < d.len() ==> is_dec_digit(#[trigger] d[i])
    &&& decimal_value(d) <= usize::MAX
}

/// Relies on `str::trim`: leading and trailing characters with the Unicode
/// White_Space property removed.
#[verifier::external_body]
fn trim(s: &str) -> (r: String)
    ensures
        r@ == trimmed(s@),
{
    s.trim().to_string()
}

/// Relies on `usize::from_str`: an optional `+` and then one or more ASCII
/// digits whose value fits in a `usize`; anything else is an error.
#[verifier::external_body]
fn parse_usize(s: &str) -> (r: Result<usize, ParseIntError>)
    ensures
        r is Ok <==> is_usize_text(s@),
        r is Ok ==> r->Ok_0 == decimal_value(unsigned_digits(s@)),
{
    s.parse::<usize>()
}

/// The host list: the comma-separated pieces of `s`, each trimmed.
pub fn split_hosts(s: &str) -> (r: Vec<String>)
    ensures
        r@.len() == split_commas(s@).len(),
        forall|j: int| 0 <= j < r@.len() ==> (#[trigger] r@[j])@ == trimmed(split_commas(s@)[j]),
{
    let n = s.unicode_len();
    let mut out: Vec<String> = Vec::new();
    let mut start: usize = 0;
    let mut i: usize = 0;
    while i < n
        invariant
            n == s@.len(),
            start <= i <= n,
            out@.len() + 1 == split_commas(s@.subrange(0, i as int)).len(),
            forall|j: int|
                0 <= j < out@.len() ==> (#[trigger] out@[j])@ == trimmed(
                    split_commas(s@.subrange(0, i as int))[j],
                ),
            split_commas(s@.subrange(0, i as int)).last() == s@.subrange(start as int, i as int),
        decreases n - i,
    {
        let c = s.get_char(i);
        let ghost prev = s@.subrange(0, i as int);
        let ghost next = s@.subrange(0, i + 1);
        assert(next.drop_last() == prev);
        assert(next.last() == c);
        if c == ',' {
            let piece = s.substring_char(start, i);
            out.push(trim(piece));
            start = i + 1;
        }
        i = i + 1;
        assert(s@.subrange(start as int, i as int) =~= if c == ',' {
            Seq::empty()
        } else {
            s@.subrange(start as int, i - 1).push(c)
        });
    }
    let piece = s.substring_char(start, n);
    out.push(trim(piece));
    assert(s@.subrange(0, n as int) =~= s@);
    out
}

/// The text of a setting: what was given, or else its default.
pub open spec fn setting(v: Option<&str>, default: Seq<char>) -> Seq<char> {
    match v {
        Some(t) => t@,
        None => default,
    }
}

/// The `Duration` that a time span stands for.
pub open spec fn span_of(t: TimeUnit) -> Duration {
    span(t.whole_secs() as u64, t.subsec_nanos() as u32)
}

/// Whether `text` is a duration that a `Duration` can hold.
pub open spec fn duration_ok(text: Seq<char>) -> bool {
    parsed(text) matches Some(t) && t.fits()
}

/// Default timeout and interval: one second.
pub open spec fn default_span_text() -> Seq<char> {
    seq!['1', 's']
}

/// Default retry count: five.
pub open spec fn default_retries_text() -> Seq<char> {
    seq!['5']
}

/// A duration setting as a `Duration`; `Err(None)` when it is too long.
fn duration_setting(text: &str) -> (r: Result<Duration, Option<ParseDurError>>)
    ensures
        match r {
            Ok(d) => duration_ok(text@) && d == span_of(parsed(text@).unwrap()),
            Err(None) => parsed(text@) is Some && !duration_ok(text@),
            Err(Some(_)) => parsed(text@) is None,
        },
{
    match TimeUnit::from_str(text) {
        Ok(t) => {
            if t.is_representable() {
                Ok(t.to_duration())
            } else {
                Err(None)
            }
        },
        Err(e) => Err(Some(e)),
    }
}

impl Config {
    /// Builds the configuration from its settings: the comma-separated host
    /// list (required), and the timeout, retry count and interval, each of
    /// which defaults (to `1s`, `5` and `1s`) when not given.
    pub fn from_settings(
        hosts: Option<&str>,
        timeout: Option<&str>,
        retries: Option<&str>,
        interval: Option<&str>,
    ) -> (r: Result<Config, ConfigError>)
        ensures
            ({
                let tt = setting(timeout, default_span_text());
                let rt = setting(retries, default_retries_text());
                let it = setting(interval, default_span_text());
                match r {
                    Err(ConfigError::MissingHosts) => hosts is None,
                    Err(ConfigError::Timeout(_)) => hosts is Some && parsed(tt) is None,
                    Err(ConfigError::TimeoutTooLong) => hosts is Some && parsed(tt) is Some
                        && !duration_ok(tt),
                    Err(ConfigError::Retries(_)) => hosts is Some && duration_ok(tt)
                        && !is_usize_text(rt),
                    Err(ConfigError::Interval(_)) => hosts is Some && duration_ok(tt)
                        && is_usize_text(rt) && parsed(it) is None,
                    Err(ConfigError::IntervalTooLong) => hosts is Some && duration_ok(tt)
                        && is_usize_text(rt) && parsed(it) is Some && !duration_ok(it),
                    Ok(c) => {
                        &&& hosts is Some
                        &&& duration_ok(tt)
                        &&& is_usize_text(rt)
                        &&& duration_ok(it)
                        &&& c.hosts@.len() == split_commas(hosts.unwrap()@).len()
                        &&& forall|j: int|
                            0 <= j < c.hosts@.len() ==> (#[trigger] c.hosts@[j])@ == trimmed(
                                split_commas(hosts.unwrap()@)[j],
                            )
                        &&& c.timeout == span_of(parsed(tt).unwrap())
                        &&& c.retries == decimal_value(unsigned_digits(rt))
                        &&& c.interval == span_of(parsed(it).unwrap())
                    },
                }
            }),
    {
        let hosts = match hosts {
            Some(h) => h,
            None => return Err(ConfigError::MissingHosts),
        };
        let timeout_text = match timeout {
            Some(t) => t,
            None => "1s",
        };
        let retries_text = match retries {
            Some(t) => t,
            None => "5",
        };
        let interval_text = match interval {
            Some(t) => t,
            None => "1s",
        };
        proof {
            reveal_strlit("1s");
            reveal_strlit("5");
            assert(timeout_text@ == setting(timeout, default_span_text()));
            assert(retries_text@ == setting(retries, default_retries_text()));
            assert(interval_text@ == setting(interval, default_span_text()));
        }
        let timeout = match duration_setting(timeout_text) {
            Ok(d) => d,
            Err(Some(e)) => return Err(ConfigError::Timeout(e)),
            Err(None) => return Err(ConfigError::TimeoutTooLong),
        };
        let retries = match parse_usize(retries_text) {
            Ok(n) => n,
            Err(e) => return Err(ConfigError::Retries(e)),
        };
        let interval = match duration_setting(interval_text) {
            Ok(d) => d,
            Err(Some(e)) => return Err(ConfigError::Interval(e)),
            Err(None) => return Err(ConfigError::IntervalTooLong),
        };
        Ok(Config { hosts: split_hosts(hosts), timeout, retries, interval })
    }
}

} // verus!
