//! Startup configuration: the chat-platform token and the polling interval.
//!
//! The process environment is read outside the library; the functions here
//! take the raw variable values and either produce a [`Config`] or say
//! exactly why startup must abort.

use vstd::prelude::*;
use vstd::string::*;

verus! {

/// Why startup configuration failed; both are fatal.
#[derive(Clone, Copy, Debug, PartialEq, Eq, Structural)]
pub enum ConfigError {
    /// The chat-platform token variable is not set.
    MissingToken,
    /// The polling-interval variable is set but is not a decimal number of
    /// seconds that fits an unsigned 64-bit integer.
    BadInterval,
}

/// The bot's startup configuration.
#[derive(Debug)]
pub struct Config {
    pub discord_token: String,
    pub poll_interval_secs: u64,
}

/// A decimal digit.
pub open spec fn is_dec_digit(c: char) -> bool {
    '0' <= c && c <= '9'
}

/// The numeric value of a decimal digit.
pub open spec fn digit_val(c: char) -> int {
    c as int - '0' as int
}

/// All characters are decimal digits.
pub open spec fn all_dec_digits(s: Seq<char>) -> bool {
    forall|i: int| 0 <= i < s.len() ==> is_dec_digit(#[trigger] s[i])
}

/// The value of a digit string, most significant digit first.
pub open spec fn digits_val(s: Seq<char>) -> int
    decreases s.len(),
{
    if s.len() == 0 {
        0
    } else {
        digits_val(s.drop_last()) * 10 + digit_val(s.last())
    }
}

/// The digits of a number written the way `u64` is parsed: an optional
/// leading `+` sign, then the digits.
pub open spec fn u64_digits(s: Seq<char>) -> Seq<char> {
    if s.len() > 0 && s[0] == '+' {
        s.drop_first()
    } else {
        s
    }
}

/// The string is a `u64`: at least one digit after the optional sign, all
/// characters digits, and the value within range.
pub open spec fn parses_as_u64(s: Seq<char>) -> bool {
    let d = u64_digits(s);
    &&& d.len() > 0
    &&& all_dec_digits(d)
    &&& digits_val(d) <= u64::MAX as int
}

/// A digit string's value is never negative.
proof fn lemma_digits_val_nonneg(s: Seq<char>)
    requires
        all_dec_digits(s),
    ensures
        digits_val(s) >= 0,
    decreases s.len(),
{
    if s.len() > 0 {
        let dl = s.drop_last();
        assert(forall|i: int| 0 <= i < dl.len() ==> dl[i] == s[i]);
        lemma_digits_val_nonneg(dl);
    }
}

/// A prefix of a digit string is worth no more than the whole string.
proof fn lemma_digits_val_prefix_le(s: Seq<char>, k: int)
    requires
        all_dec_digits(s),
        0 <= k <= s.len(),
    ensures
        digits_val(s.take(k)) <= digits_val(s),
    decreases s.len(),
{
    if k == s.len() {
        assert(s.take(k) =~= s);
    } else {
        let dl = s.drop_last();
        assert(forall|i: int| 0 <= i < dl.len() ==> dl[i] == s[i]);
        lemma_digits_val_prefix_le(dl, k);
        assert(s.take(k) =~= dl.take(k));
        lemma_digits_val_nonneg(dl);
        assert(digits_val(s) == digits_val(dl) * 10 + digit_val(s.last()));
        assert(digits_val(dl) * 10 >= digits_val(dl)) by (nonlinear_arith)
            requires
                digits_val(dl) >= 0,
        ;
    }
}

/// Parse a decimal `u64` the way `str::parse::<u64>` reads it: an optional
/// leading `+`, then one or more digits, within range.
pub fn parse_u64(s: &str) -> (r: Option<u64>)
    ensures
        match r {
            Some(v) => parses_as_u64(s@) && v as int == digits_val(u64_digits(s@)),
            None => !parses_as_u64(s@),
        },
{
    let n = s.unicode_len();
    if n == 0 {
        return None;
    }
    let first = s.get_char(0);
    let start: usize = if first == '+' {
        1
    } else {
        0
    };
    if n == start {
        return None;
    }
    let ghost d = u64_digits(s@);
    proof {
        assert(d =~= s@.subrange(start as int, n as int));
    }
    let mut acc: u64 = 0;
    let mut i: usize = start;
    proof {
        assert(d.take(0) =~= Seq::<char>::empty());
    }
    while i < n
        invariant
            start <= i <= n,
            n == s@.len(),
            d == u64_digits(s@),
            d =~= s@.subrange(start as int, n as int),
            all_dec_digits(d.take(i - start)),
            acc as int == digits_val(d.take(i - start)),
        decreases n - i,
    {
        let c = s.get_char(i);
        let cv = c as u32;
        if cv < 48 || cv > 57 {
            proof {
                assert(d[i - start] == s@[i as int]);
                assert(!is_dec_digit(d[i - start]));
            }
            return None;
        }
        let digit = (cv - 48) as u64;
        proof {
            assert(d[i - start] == s@[i as int]);
            assert(is_dec_digit(d[i - start]));
            assert(digit as int == digit_val(d[i - start]));
        }
        if acc > (u64::MAX - digit) / 10 {
            proof {
                let k = i - start;
                assert(d.take(k + 1).drop_last() =~= d.take(k));
                assert(digits_val(d.take(k + 1)) == acc as int * 10 + digit as int);
                assert(acc as int * 10 + digit as int > u64::MAX as int) by (nonlinear_arith)
                    requires
                        acc as int > (u64::MAX as int - digit as int) / 10,
                        0 <= digit as int <= 9,
                        acc as int >= 0,
                ;
                assert(all_dec_digits(d.take(k + 1)));
                if all_dec_digits(d) {
                    lemma_digits_val_prefix_le(d, k + 1);
                    assert(d.take(d.len() as int) =~= d);
                    assert(digits_val(d) > u64::MAX as int);
                }
            }
            return None;
        }
        acc = acc * 10 + digit;
        proof {
            let k = i - start;
            assert(d.take(k + 1).drop_last() =~= d.take(k));
            assert(acc as int == digits_val(d.take(k + 1)));
        }
        i += 1;
    }
    proof {
        assert(d.take(n - start) =~= d);
    }
    Some(acc)
}

/// Assemble the configuration from the raw environment values: the token
/// is required, the interval defaults to 30 seconds when its variable is
/// absent and must parse as a decimal `u64` when present. The interval is
/// checked first, as a bad value is a fatal startup error on its own.
pub fn config_from_env_values(token: Option<String>, interval: Option<String>) -> (r: Result<
    Config,
    ConfigError,
>)
    ensures
        match r {
            Ok(c) => {
                &&& token matches Some(t) && c.discord_token@ == t@
                &&& match interval {
                    None => c.poll_interval_secs == 30,
                    Some(s) => parses_as_u64(s@) && c.poll_interval_secs as int == digits_val(
                        u64_digits(s@),
                    ),
                }
            },
            Err(e) => match e {
                ConfigError::BadInterval => interval matches Some(s) && !parses_as_u64(s@),
                ConfigError::MissingToken => token is None && (interval matches Some(s)
                    ==> parses_as_u64(s@)),
            },
        },
{
    let poll_interval_secs: u64 = match interval {
        None => 30,
        Some(s) => match parse_u64(s.as_str()) {
            Some(v) => v,
            None => {
                return Err(ConfigError::BadInterval);
            },
        },
    };
    match token {
        Some(discord_token) => Ok(Config { discord_token, poll_interval_secs }),
        None => Err(ConfigError::MissingToken),
    }
}

} // verus!
