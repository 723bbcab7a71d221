//! Where the broker is advertised and where the store is kept.

use vstd::prelude::*;
use vstd::string::*;

verus! {

/// The broker address handed to registered devices, and the path of the
/// file the store is persisted to.
pub struct Config {
    pub mqtt_host: String,
    pub mqtt_port: u16,
    pub database_path: String,
}

/// The value of a decimal digit, for a character that is one.
pub open spec fn digit_value(c: char) -> Option<nat> {
    if c == '0' {
        Some(0)
    } else if c == '1' {
        Some(1)
    } else if c == '2' {
        Some(2)
    } else if c == '3' {
        Some(3)
    } else if c == '4' {
        Some(4)
    } else if c == '5' {
        Some(5)
    } else if c == '6' {
        Some(6)
    } else if c == '7' {
        Some(7)
    } else if c == '8' {
        Some(8)
    } else if c == '9' {
        Some(9)
    } else {
        None
    }
}

/// Every character is a decimal digit.
pub open spec fn all_digits(text: Seq<char>) -> bool {
    forall|i: int| 0 <= i < text.len() ==> digit_value(#[trigger] text[i]) is Some
}

/// The number a run of decimal digits denotes.
pub open spec fn decimal_value(text: Seq<char>) -> nat
    decreases text.len(),
{
    if text.len() == 0 {
        0
    } else {
        decimal_value(text.drop_last()) * 10 + digit_value(text.last()).unwrap_or(0)
    }
}

/// The digits of a port number: the text without an optional leading `+`.
pub open spec fn port_digits(text: Seq<char>) -> Seq<char> {
    if text.len() > 0 && text[0] == '+' {
        text.subrange(1, text.len() as int)
    } else {
        text
    }
}

/// The port a text denotes: decimal digits, optionally after one `+`, that
/// amount to at most 65535. Anything else denotes none.
pub open spec fn spec_parse_port(text: Seq<char>) -> Option<u16> {
    let digits = port_digits(text);
    if digits.len() > 0 && all_digits(digits) && decimal_value(digits) <= u16::MAX {
        Some(decimal_value(digits) as u16)
    } else {
        None
    }
}

/// The decimal value grows with every further digit.
proof fn lemma_decimal_value_grows(text: Seq<char>, k: int)
    requires
        0 <= k <= text.len(),
    ensures
        decimal_value(text.subrange(0, k)) <= decimal_value(text),
    decreases text.len() - k,
{
    if k < text.len() {
        lemma_decimal_value_grows(text, k + 1);
        let longer = text.subrange(0, k + 1);
        assert(longer.drop_last() =~= text.subrange(0, k));
    } else {
        assert(text.subrange(0, k) =~= text);
    }
}

/// The value of a decimal digit.
fn digit_of(c: char) -> (digit: Option<u16>)
    ensures
        match digit {
            Some(d) => digit_value(c) == Some(d as nat) && d <= 9,
            None => digit_value(c) is None,
        },
{
    if c == '0' {
        Some(0)
    } else if c == '1' {
        Some(1)
    } else if c == '2' {
        Some(2)
    } else if c == '3' {
        Some(3)
    } else if c == '4' {
        Some(4)
    } else if c == '5' {
        Some(5)
    } else if c == '6' {
        Some(6)
    } else if c == '7' {
        Some(7)
    } else if c == '8' {
        Some(8)
    } else if c == '9' {
        Some(9)
    } else {
        None
    }
}

/// Reads a port number from its decimal text.
pub fn parse_port(text: &str) -> (port: Option<u16>)
    ensures
        port == spec_parse_port(text@),
{
    let n = text.unicode_len();
    let start: usize = if n > 0 && text.get_char(0) == '+' {
        1
    } else {
        0
    };
    if start == n {
        return None;
    }
    let ghost digits = port_digits(text@);
    assert(digits =~= text@.subrange(start as int, n as int));
    let mut value: u16 = 0;
    let mut i: usize = start;
    while i < n
        invariant
            start <= i <= n,
            n == text@.len(),
            digits == port_digits(text@),
            digits == text@.subrange(start as int, n as int),
            all_digits(digits.subrange(0, i - start)),
            value == decimal_value(digits.subrange(0, i - start)),
        decreases n - i,
    {
        let ghost seen = digits.subrange(0, i - start);
        let ghost next = digits.subrange(0, i - start + 1);
        assert(next.drop_last() =~= seen);
        assert(next.last() == text@[i as int]);
        match digit_of(text.get_char(i)) {
            Some(d) => {
                if value > 6553 || (value == 6553 && d > 5) {
                    proof {
                        assert(decimal_value(next) == decimal_value(seen) * 10 + d);
                        lemma_decimal_value_grows(digits, i - start + 1);
                    }
                    return None;
                }
                value = value * 10 + d;
                assert forall|j: int| 0 <= j < next.len() implies digit_value(
                    #[trigger] next[j],
                ) is Some by {
                    if j < seen.len() {
                        assert(next[j] == seen[j]);
                    }
                }
            },
            None => {
                assert(digit_value(digits[i - start]) is None);
                return None;
            },
        }
        i += 1;
    }
    assert(digits.subrange(0, n - start) =~= digits);
    Some(value)
}

/// Why a configuration was refused.
#[derive(Clone, Copy, Debug, PartialEq, Eq, Structural)]
pub enum ConfigError {
    /// The port is not a number between 0 and 65535.
    InvalidPort,
}

impl Config {
    /// Builds the configuration from the texts it is given as.
    pub fn from_values(mqtt_host: String, mqtt_port: &str, database_path: String) -> (res: Result<
        Config,
        ConfigError,
    >)
        ensures
            match spec_parse_port(mqtt_port@) {
                Some(port) => res matches Ok(config) && config.mqtt_host@ == mqtt_host@
                    && config.mqtt_port == port && config.database_path@ == database_path@,
                None => res matches Err(e) && e == ConfigError::InvalidPort,
            },
    {
        match parse_port(mqtt_port) {
            Some(port) => Ok(Config { mqtt_host, mqtt_port: port, database_path }),
            None => Err(ConfigError::InvalidPort),
        }
    }
}

} // verus!
