//! How much the ONNX runtime logs.

use crate::internal::env::{self, EnvVars};
use crate::text::{ascii_lowercase, ascii_lowercased, same, trim, trimmed};
use vstd::prelude::*;
use vstd::string::*;

verus! {

/// A log level of the ONNX runtime.
#[derive(Debug, Clone, Copy, PartialEq, Eq, Structural)]
pub enum OrtLogLevel {
    Verbose,
    Info,
    Warning,
    Error,
    Fatal,
}

/// The level of a lower-case word; warnings for any other.
pub open spec fn level_of(key: Seq<char>) -> OrtLogLevel {
    if key == "verbose"@ {
        OrtLogLevel::Verbose
    } else if key == "info"@ {
        OrtLogLevel::Info
    } else if key == "error"@ {
        OrtLogLevel::Error
    } else if key == "fatal"@ {
        OrtLogLevel::Fatal
    } else {
        OrtLogLevel::Warning
    }
}

/// Reads the level from `ORT_LOG`; warnings where it is not set, to keep the log quiet.
pub fn parse_level_from_env(vars: &EnvVars) -> (r: OrtLogLevel)
    ensures
        r == match env::var_of(vars@, "ORT_LOG"@) {
            Some(raw) => level_of(ascii_lowercased(trimmed(raw))),
            None => OrtLogLevel::Warning,
        },
{
    match vars.get("ORT_LOG") {
        Some(raw) => {
            let key = ascii_lowercase(trim(raw.as_str()).as_str());
            if same(key.as_str(), "verbose") {
                OrtLogLevel::Verbose
            } else if same(key.as_str(), "info") {
                OrtLogLevel::Info
            } else if same(key.as_str(), "error") {
                OrtLogLevel::Error
            } else if same(key.as_str(), "fatal") {
                OrtLogLevel::Fatal
            } else {
                OrtLogLevel::Warning
            }
        },
        None => OrtLogLevel::Warning,
    }
}

/// Each level has its word; every other word is for warnings.
pub proof fn law_levels_by_word(word: Seq<char>)
    ensures
        level_of(word) == OrtLogLevel::Verbose <==> word == "verbose"@,
        level_of(word) == OrtLogLevel::Info <==> word == "info"@,
        level_of(word) == OrtLogLevel::Error <==> word == "error"@,
        level_of(word) == OrtLogLevel::Fatal <==> word == "fatal"@,
        level_of(word) == OrtLogLevel::Warning <==> word != "verbose"@ && word != "info"@ && word
            != "error"@ && word != "fatal"@,
{
    reveal_strlit("verbose");
    reveal_strlit("info");
    reveal_strlit("error");
    reveal_strlit("fatal");
    assert("verbose"@[0] == 'v' && "info"@[0] == 'i' && "error"@[0] == 'e' && "fatal"@[0] == 'f');
}

} // verus!
