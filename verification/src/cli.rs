//! The configuration that the tool runs with.

use crate::parser::{decimal_value, is_digit};
use vstd::prelude::*;

verus! {

/// Where the IPv4 list is fetched from unless the command line says otherwise.
pub const V4_DEFAULT_URL: &'static str =
    "https://raw.githubusercontent.com/misakaio/chnroutes2/master/chnroutes.txt";

/// Where the IPv6 list is fetched from unless the command line says otherwise.
pub const V6_DEFAULT_URL: &'static str =
    "https://raw.githubusercontent.com/fernvenue/chn-cidr-list/master/ipv6.txt";

/// Hours between two passes where the command line names no interval.
pub const DEFAULT_INTERVAL_HOURS: u64 = 24;

/// Seconds in an hour.
pub const SECONDS_PER_HOUR: u64 = 3600;

/// The command line, parsed.
#[derive(Debug, PartialEq, Eq)]
pub struct Args {
    /// URL of the IPv4 list.
    pub v4_url: String,
    /// URL of the IPv6 list.
    pub v6_url: String,
    /// Leave IPv6 alone.
    pub no_v6: bool,
    /// Keep running and repeat the pass.
    pub daemon: bool,
    /// Hours between two passes, in decimal digits.
    pub interval: Option<String>,
    /// Name of the output interface of the routes.
    pub interface: String,
    /// The routing table to fill, owned by this tool alone.
    pub table: u8,
}

/// What is wrong with a configuration.
#[derive(Clone, Copy, Debug, PartialEq, Eq, Structural)]
pub enum ConfigError {
    /// The interval is empty or holds something other than decimal digits.
    MalformedInterval,
    /// The interval in seconds does not fit in 64 bits.
    IntervalTooLong,
}

/// Whether `s` is a non-empty run of decimal digits.
pub open spec fn is_decimal(s: Seq<char>) -> bool {
    &&& s.len() > 0
    &&& forall|i: int| 0 <= i < s.len() ==> is_digit(#[trigger] s[i])
}

/// The seconds between two passes that an interval setting asks for: a day
/// where there is no setting, and else as many hours as the setting spells.
pub open spec fn interval_seconds(interval: Option<Seq<char>>) -> Result<nat, ConfigError> {
    match interval {
        None => Ok((DEFAULT_INTERVAL_HOURS * SECONDS_PER_HOUR) as nat),
        Some(text) => if !is_decimal(text) {
            Err(ConfigError::MalformedInterval)
        } else if decimal_value(text) * SECONDS_PER_HOUR > u64::MAX {
            Err(ConfigError::IntervalTooLong)
        } else {
            Ok((decimal_value(text) * SECONDS_PER_HOUR) as nat)
        },
    }
}

/// The number of hours that `text` spells, as far as it fits: nothing where
/// `text` is no run of digits, and the error where the hours in seconds would
/// not fit in 64 bits.
pub fn parse_hours(text: &str) -> (r: Result<u64, ConfigError>)
    ensures
        match r {
            Ok(hours) => interval_seconds(Some(text@)) == Ok::<nat, ConfigError>(
                (hours * SECONDS_PER_HOUR) as nat,
            ) && hours == decimal_value(text@),
            Err(e) => interval_seconds(Some(text@)) == Err::<nat, ConfigError>(e),
        },
{
    let limit: u64 = u64::MAX / SECONDS_PER_HOUR;
    let mut hours: u64 = 0;
    let mut too_long = false;
    let mut any = false;
    for c in it: text.chars()
        invariant
            it.seq() == text@,
            any == (it.index() > 0),
            limit == u64::MAX / SECONDS_PER_HOUR,
            forall|i: int| 0 <= i < it.index() ==> is_digit(#[trigger] text@[i]),
            !too_long ==> hours == decimal_value(text@.take(it.index() as int)) && hours <= limit,
            too_long ==> decimal_value(text@.take(it.index() as int)) > limit,
    {
        let n: u32 = c as u32;
        if n < 48 || n > 57 {
            return Err(ConfigError::MalformedInterval);
        }
        let d: u64 = (n - 48) as u64;
        proof {
            let before = text@.take(it.index() as int);
            let after = text@.take(it.index() + 1);
            assert(after.drop_last() =~= before);
            assert(after.last() == c);
            assert(decimal_value(after) == decimal_value(before) * 10 + d);
        }
        if !too_long {
            if hours > (limit - d) / 10 {
                too_long = true;
            } else {
                hours = hours * 10 + d;
            }
        }
        any = true;
    }
    proof {
        assert(text@.take(text@.len() as int) =~= text@);
    }
    if !any {
        Err(ConfigError::MalformedInterval)
    } else if too_long {
        Err(ConfigError::IntervalTooLong)
    } else {
        Ok(hours)
    }
}

impl Args {
    /// The seconds between two passes, or what is wrong with the setting.
    pub fn update_interval(&self) -> (r: Result<u64, ConfigError>)
        ensures
            match r {
                Ok(seconds) => self.interval_seconds() == Ok::<nat, ConfigError>(seconds as nat),
                Err(e) => self.interval_seconds() == Err::<nat, ConfigError>(e),
            },
    {
        match &self.interval {
            None => Ok(DEFAULT_INTERVAL_HOURS * SECONDS_PER_HOUR),
            Some(text) => match parse_hours(text.as_str()) {
                Ok(hours) => Ok(hours * SECONDS_PER_HOUR),
                Err(e) => Err(e),
            },
        }
    }

    /// The seconds between two passes that this configuration asks for.
    pub open spec fn interval_seconds(&self) -> Result<nat, ConfigError> {
        interval_seconds(
            match self.interval {
                Some(text) => Some(text@),
                None => None,
            },
        )
    }
}

} // verus!
