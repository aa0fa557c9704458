//! Process-wide runtime configuration: tunables read once by subsystems
//! that spawn worker threads or decide whether to capture backtraces.
//!
//! Applying a configuration input overwrites exactly the fields the input
//! specifies; an unspecified field keeps its default on the first
//! application and its prior value on a later one. Reapplying after other
//! calls have read earlier values is the caller's responsibility to avoid;
//! the store itself only validates and records.

use vstd::prelude::*;
use crate::config_json::{
    ConfigDelta, empty_delta, lemma_skip_ws_bounds, parse_config, parse_config_bytes, skip_ws,
};
use crate::error_code::ErrorCode;

verus! {

/// The process-wide tunables. Defaults: a crypto thread pool of four, no
/// backtrace capture.
#[derive(Debug, PartialEq, Eq, Structural, Clone, Copy)]
pub struct RuntimeConfig {
    pub crypto_thread_pool_size: u32,
    pub collect_backtrace: bool,
}

/// The configuration after a delta: specified fields overwritten, the
/// rest kept.
pub open spec fn applied(c: RuntimeConfig, d: ConfigDelta) -> RuntimeConfig {
    RuntimeConfig {
        crypto_thread_pool_size: match d.crypto_thread_pool_size {
            Some(v) => v,
            None => c.crypto_thread_pool_size,
        },
        collect_backtrace: match d.collect_backtrace {
            Some(b) => b,
            None => c.collect_backtrace,
        },
    }
}

impl RuntimeConfig {
    pub fn new() -> (r: RuntimeConfig)
        ensures
            r.crypto_thread_pool_size == 4,
            !r.collect_backtrace,
    {
        RuntimeConfig { crypto_thread_pool_size: 4, collect_backtrace: false }
    }

    /// Validate and apply a configuration input. A malformed input is
    /// rejected with the invalid-structure code and changes nothing; a
    /// well-formed one overwrites exactly the fields it specifies.
    pub fn apply(&mut self, config: &[u8]) -> (r: ErrorCode)
        ensures
            match parse_config(config@) {
                Some(d) => r == ErrorCode::Success && *final(self) == applied(*old(self), d),
                None => r == ErrorCode::CommonInvalidStructure && *final(self) == *old(self),
            },
    {
        match parse_config_bytes(config) {
            Some(d) => {
                match d.crypto_thread_pool_size {
                    Some(v) => {
                        self.crypto_thread_pool_size = v;
                    },
                    None => {},
                }
                match d.collect_backtrace {
                    Some(b) => {
                        self.collect_backtrace = b;
                    },
                    None => {},
                }
                ErrorCode::Success
            },
            None => ErrorCode::CommonInvalidStructure,
        }
    }
}

/// An input that does not open a JSON object — plain text, an array, an
/// empty string — is malformed, so applying it is rejected with the
/// invalid-structure code and changes nothing.
pub proof fn lemma_non_object_input_is_rejected(s: Seq<u8>)
    requires
        skip_ws(s, 0) == s.len() || s[skip_ws(s, 0)] != 123,
    ensures
        parse_config(s) is None,
{
    lemma_skip_ws_bounds(s, 0);
}

/// The empty object `{}` is well-formed and specifies nothing, so applying
/// it never fails and leaves both fields alone: at their defaults on a
/// first call, at their prior values on a later one.
pub proof fn lemma_empty_object_changes_nothing(c: RuntimeConfig)
    ensures
        parse_config(seq![123u8, 125u8]) == Some(empty_delta()),
        applied(c, empty_delta()) == c,
{
    let s = seq![123u8, 125u8];
    assert(s.len() == 2 && s[0] == 123 && s[1] == 125);
    assert(skip_ws(s, 0) == 0);
    assert(skip_ws(s, 1) == 1);
    assert(skip_ws(s, 2) == 2);
}

} // verus!
