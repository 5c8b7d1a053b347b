//! Runtime configuration from textual settings. The process start
//! hands in the raw strings it found (or none, where one was unset);
//! a missing setting takes its default, an unreadable one refuses the
//! whole configuration — startup is the only moment such an error may
//! surface, and it is fatal there. Numbers are read as canonical
//! decimals.

use vstd::prelude::*;
use vstd::string::StrSliceExecFns;
use vstd::string::StringSliceAdditionalSpecFns;

use crate::digits::{parse_u64_at, spec_parse_u64_full};

verus! {

#[derive(Clone, Copy, Debug, PartialEq, Eq, Structural)]
pub struct AppConfig {
    pub port: u16,
    pub rate_limit_requests: u64,
    pub rate_limit_duration: u64,
}

/// A setting's value: its default where unset, else its decimal
/// reading where one exists.
pub open spec fn spec_setting(o: Option<Seq<u8>>, default: int) -> Option<int> {
    match o {
        None => Some(default),
        Some(b) => spec_parse_u64_full(b),
    }
}

/// Read a whole string as one unsigned canonical decimal.
pub fn parse_u64_str(s: &str) -> (r: Option<u64>)
    ensures
        match r {
            Some(v) => spec_parse_u64_full(s.spec_bytes()) == Some(v as int),
            None => spec_parse_u64_full(s.spec_bytes()) is None,
        },
{
    let b = s.as_bytes_vec();
    match parse_u64_at(&b, 0) {
        Some((v, j)) => {
            if j == b.len() {
                Some(v)
            } else {
                None
            }
        },
        None => None,
    }
}

impl AppConfig {
    /// Build the configuration from the setting strings the process
    /// start found: port, request quota and window duration, with
    /// defaults 3000, 100 and 60; `None` exactly where a present
    /// string is no canonical decimal or the port exceeds its range.
    pub fn from_strings(
        port: Option<&str>,
        requests: Option<&str>,
        duration: Option<&str>,
    ) -> (r: Option<AppConfig>)
        ensures
            ({
                let pv = spec_setting(
                    match port {
                        Some(s) => Some(s.spec_bytes()),
                        None => None,
                    },
                    3000,
                );
                let qv = spec_setting(
                    match requests {
                        Some(s) => Some(s.spec_bytes()),
                        None => None,
                    },
                    100,
                );
                let dv = spec_setting(
                    match duration {
                        Some(s) => Some(s.spec_bytes()),
                        None => None,
                    },
                    60,
                );
                match r {
                    Some(c) => {
                        &&& pv matches Some(p) && p <= 65535 && c.port == p
                        &&& qv matches Some(q) && c.rate_limit_requests == q
                        &&& dv matches Some(d) && c.rate_limit_duration == d
                    },
                    None => {
                        ||| pv is None
                        ||| qv is None
                        ||| dv is None
                        ||| pv matches Some(p) && p > 65535
                    },
                }
            }),
    {
        let p: u64 = match port {
            None => 3000,
            Some(s) => match parse_u64_str(s) {
                Some(v) => v,
                None => {
                    return None;
                },
            },
        };
        if p > 65535 {
            return None;
        }
        let q: u64 = match requests {
            None => 100,
            Some(s) => match parse_u64_str(s) {
                Some(v) => v,
                None => {
                    return None;
                },
            },
        };
        let d: u64 = match duration {
            None => 60,
            Some(s) => match parse_u64_str(s) {
                Some(v) => v,
                None => {
                    return None;
                },
            },
        };
        Some(AppConfig { port: p as u16, rate_limit_requests: q, rate_limit_duration: d })
    }
}

} // verus!
