//! The configuration the program runs with: logging, chat, web API and
//! database settings, and the parsing of a configured log level name.

use vstd::prelude::*;
use crate::numfmt::{spec_udec, u64_to_string};

verus! {

/// A logging verbosity level.
#[derive(Debug, Clone, Copy, PartialEq, Eq, Structural)]
pub enum LogLevel {
    Off,
    Error,
    Warn,
    Info,
    Debug,
    Trace,
}

/// Logging settings: the level, the log file, and whether to echo to
/// standard output.
#[derive(Debug, Clone)]
pub struct Log {
    pub level: LogLevel,
    pub file_output: String,
    pub stdout: bool,
}

/// Chat settings: the bot token, the command prefix, the owners, the guild
/// served, and how long edits keep being tracked.
#[derive(Debug, Clone)]
pub struct DiscordConfig {
    pub token: String,
    pub prefix: String,
    pub owners: Vec<u64>,
    pub guild: u64,
    pub edit_track_timespan: u64,
}

/// Web API settings: where to listen.
#[derive(Debug, Clone)]
pub struct APIConfig {
    pub address: String,
    pub port: u16,
}

/// Database settings: where the store lives and how to sign in.
#[derive(Debug, Clone)]
pub struct DatabaseConfig {
    pub address: String,
    pub port: u16,
    pub username: String,
    pub password: String,
    pub database: String,
}

/// The whole configuration.
#[derive(Debug, Clone)]
pub struct Config {
    pub log: Log,
    pub discord: DiscordConfig,
    pub api: APIConfig,
    pub database: DatabaseConfig,
}

impl APIConfig {
    /// The listen address as `"{address}:{port}"` text.
    pub fn address(&self) -> (r: String)
        ensures
            r@ == self.address@ + seq![':'] + spec_udec(self.port as nat),
    {
        let mut r = self.address.clone();
        r.append(":");
        proof {
            reveal_strlit(":");
            assert(":"@ =~= seq![':']);
        }
        let p = u64_to_string(self.port as u64);
        r.append(p.as_str());
        r
    }
}

/// The lower-case form of an ASCII letter; any other character stands.
pub open spec fn lower_char(c: char) -> char {
    match c {
        'A' => 'a',
        'B' => 'b',
        'C' => 'c',
        'D' => 'd',
        'E' => 'e',
        'F' => 'f',
        'G' => 'g',
        'H' => 'h',
        'I' => 'i',
        'J' => 'j',
        'K' => 'k',
        'L' => 'l',
        'M' => 'm',
        'N' => 'n',
        'O' => 'o',
        'P' => 'p',
        'Q' => 'q',
        'R' => 'r',
        'S' => 's',
        'T' => 't',
        'U' => 'u',
        'V' => 'v',
        'W' => 'w',
        'X' => 'x',
        'Y' => 'y',
        'Z' => 'z',
        _ => c,
    }
}

/// The text with every ASCII letter lowered.
pub open spec fn lower_seq(s: Seq<char>) -> Seq<char> {
    s.map_values(|c: char| lower_char(c))
}

/// The level a configured name stands for, compared without regard to
/// ASCII case; an unrecognized name falls back to `Info`.
pub open spec fn spec_level_of(s: Seq<char>) -> LogLevel {
    let ls = lower_seq(s);
    if ls == "off"@ {
        LogLevel::Off
    } else if ls == "error"@ {
        LogLevel::Error
    } else if ls == "warn"@ {
        LogLevel::Warn
    } else if ls == "info"@ {
        LogLevel::Info
    } else if ls == "debug"@ {
        LogLevel::Debug
    } else if ls == "trace"@ {
        LogLevel::Trace
    } else {
        LogLevel::Info
    }
}

/// Lowers one ASCII letter.
fn lower(c: char) -> (r: char)
    ensures
        r == lower_char(c),
{
    match c {
        'A' => 'a',
        'B' => 'b',
        'C' => 'c',
        'D' => 'd',
        'E' => 'e',
        'F' => 'f',
        'G' => 'g',
        'H' => 'h',
        'I' => 'i',
        'J' => 'j',
        'K' => 'k',
        'L' => 'l',
        'M' => 'm',
        'N' => 'n',
        'O' => 'o',
        'P' => 'p',
        'Q' => 'q',
        'R' => 'r',
        'S' => 's',
        'T' => 't',
        'U' => 'u',
        'V' => 'v',
        'W' => 'w',
        'X' => 'x',
        'Y' => 'y',
        'Z' => 'z',
        _ => c,
    }
}

/// Whether `s`, lowered, reads as `kw`.
fn matches_lowered(s: &str, kw: &str) -> (b: bool)
    ensures
        b == (lower_seq(s@) == kw@),
{
    let n = s.unicode_len();
    if n != kw.unicode_len() {
        proof {
            assert(lower_seq(s@).len() == s@.len());
        }
        return false;
    }
    let mut i: usize = 0;
    while i < n
        invariant
            n == s@.len(),
            n == kw@.len(),
            i <= n,
            forall|j: int| 0 <= j < i ==> lower_char(s@[j]) == kw@[j],
        decreases n - i,
    {
        if lower(s.get_char(i)) != kw.get_char(i) {
            proof {
                assert(lower_seq(s@)[i as int] != kw@[i as int]);
            }
            return false;
        }
        i = i + 1;
    }
    proof {
        assert(lower_seq(s@) =~= kw@);
    }
    true
}

/// Parses a configured level name, without regard to ASCII case; an
/// unrecognized name falls back to `Info`.
pub fn level_from_name(s: &str) -> (l: LogLevel)
    ensures
        l == spec_level_of(s@),
{
    if matches_lowered(s, "off") {
        LogLevel::Off
    } else if matches_lowered(s, "error") {
        LogLevel::Error
    } else if matches_lowered(s, "warn") {
        LogLevel::Warn
    } else if matches_lowered(s, "info") {
        LogLevel::Info
    } else if matches_lowered(s, "debug") {
        LogLevel::Debug
    } else if matches_lowered(s, "trace") {
        LogLevel::Trace
    } else {
        LogLevel::Info
    }
}

} // verus!
