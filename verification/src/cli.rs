//! Configuration-facing types: host addresses and labels, the resolved
//! configuration the probing core runs from, and log-level word parsing.
//!
//! Address resolution, option parsing and logger setup are outside
//! collaborators; they hand the library these plain values.

use vstd::prelude::*;
use vstd::string::StrSliceExecFns;

verus! {

/// An IP address as plain bits: 32 for v4, 128 for v6.
#[derive(Clone, Copy, Debug, PartialEq, Eq, Structural)]
pub enum HostAddress {
    V4(u32),
    V6(u128),
}

impl HostAddress {
    /// Whether this is a v4 address.
    pub fn is_ipv4(&self) -> (r: bool)
        ensures
            r == (self is V4),
    {
        match self {
            HostAddress::V4(_) => true,
            HostAddress::V6(_) => false,
        }
    }
}

/// One monitored host: its optional display label (the hostname as given)
/// and its resolved address.
pub struct HostInfo {
    pub host: Option<String>,
    pub ip: HostAddress,
}

impl HostInfo {
    /// Pair a label with an address.
    pub fn new(host: Option<String>, ip: HostAddress) -> (r: HostInfo)
        ensures
            r.host == host,
            r.ip == ip,
    {
        HostInfo { host, ip }
    }

    /// An equal copy (the label string is copied).
    pub fn duplicate(&self) -> (r: HostInfo)
        ensures
            r == *self,
    {
        let host = match &self.host {
            Some(s) => Some(s.clone()),
            None => None,
        };
        HostInfo { host, ip: self.ip }
    }
}

/// Log verbosity, from silent to noisiest.
#[derive(Clone, Copy, Debug, PartialEq, Eq, Structural)]
pub enum LogLevel {
    Off,
    Error,
    Warn,
    Info,
    Debug,
    Trace,
}

/// The resolved configuration the probing core runs from. Durations are in
/// nanoseconds; a `stat_interval_ns` of zero disables periodic reporting.
pub struct Config {
    pub interval_ns: u64,
    pub timeout_ns: u64,
    pub stat_interval_ns: u64,
    pub ips: Vec<HostInfo>,
    pub raw_write_odd: bool,
    pub log_level: LogLevel,
    pub ident_base: u16,
}

/// Character-for-character string equality.
pub fn str_eq(a: &str, b: &str) -> (r: bool)
    ensures
        r == (a@ == b@),
{
    let alen = a.unicode_len();
    let blen = b.unicode_len();
    if alen != blen {
        return false;
    }
    let mut i: usize = 0;
    while i < alen
        invariant
            alen == a@.len(),
            blen == b@.len(),
            alen == blen,
            i <= alen,
            forall|j: int| 0 <= j < i ==> a@[j] == b@[j],
        decreases alen - i,
    {
        if a.get_char(i) != b.get_char(i) {
            return false;
        }
        i = i + 1;
    }
    proof {
        assert(a@ =~= b@);
    }
    true
}

/// The level a word names, if any: each level is written out or
/// abbreviated to its first letter.
pub open spec fn level_of_word(s: Seq<char>) -> Option<LogLevel> {
    if s == "off"@ || s == "o"@ {
        Some(LogLevel::Off)
    } else if s == "error"@ || s == "e"@ {
        Some(LogLevel::Error)
    } else if s == "warn"@ || s == "w"@ {
        Some(LogLevel::Warn)
    } else if s == "info"@ || s == "i"@ {
        Some(LogLevel::Info)
    } else if s == "debug"@ || s == "d"@ {
        Some(LogLevel::Debug)
    } else if s == "trace"@ || s == "t"@ {
        Some(LogLevel::Trace)
    } else {
        None
    }
}

/// The word did not name a log level.
#[derive(Clone, Copy, Debug, PartialEq, Eq, Structural)]
pub struct UnknownLogLevel;

/// Parse a log-level word: a level's full name or its first letter.
pub fn to_log_level(s: &str) -> (r: Result<LogLevel, UnknownLogLevel>)
    ensures
        (match r {
            Ok(l) => level_of_word(s@) == Some(l),
            Err(_) => level_of_word(s@) is None,
        }),
{
    if str_eq(s, "off") || str_eq(s, "o") {
        Ok(LogLevel::Off)
    } else if str_eq(s, "error") || str_eq(s, "e") {
        Ok(LogLevel::Error)
    } else if str_eq(s, "warn") || str_eq(s, "w") {
        Ok(LogLevel::Warn)
    } else if str_eq(s, "info") || str_eq(s, "i") {
        Ok(LogLevel::Info)
    } else if str_eq(s, "debug") || str_eq(s, "d") {
        Ok(LogLevel::Debug)
    } else if str_eq(s, "trace") || str_eq(s, "t") {
        Ok(LogLevel::Trace)
    } else {
        Err(UnknownLogLevel)
    }
}

} // verus!
