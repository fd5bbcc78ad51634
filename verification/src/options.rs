//! The choices that a user makes on the command line, as far as they decide
//! what the check does.

use vstd::prelude::*;
use vstd::string::StringExecFns;

use crate::text::str_equal;

verus! {

/// How the outcome is written.
#[derive(Clone, Copy, Debug, PartialEq, Eq, Structural)]
pub enum OutputKind {
    Human,
    Json,
}

/// What tells which dependencies a unit used.
#[derive(Clone, Copy, Debug, PartialEq, Eq, Structural)]
pub enum Backend {
    Depinfo,
}

impl OutputKind {
    /// Reads `human` or `json`.
    pub fn from_str(s: &str) -> (kind: Result<OutputKind, &'static str>)
        ensures
            s@ == "human"@ ==> kind == Ok::<OutputKind, &'static str>(OutputKind::Human),
            s@ != "human"@ && s@ == "json"@ ==> kind == Ok::<OutputKind, &'static str>(
                OutputKind::Json,
            ),
            s@ != "human"@ && s@ != "json"@ ==> kind is Err && kind->Err_0@
                == "expected \"human\" or \"json\" (you should not see this message)"@,
    {
        if str_equal(s, "human") {
            Ok(OutputKind::Human)
        } else if str_equal(s, "json") {
            Ok(OutputKind::Json)
        } else {
            Err("expected \"human\" or \"json\" (you should not see this message)")
        }
    }
}

impl Backend {
    /// Reads `depinfo`.
    pub fn from_str(s: &str) -> (backend: Result<Backend, &'static str>)
        ensures
            s@ == "depinfo"@ ==> backend == Ok::<Backend, &'static str>(Backend::Depinfo),
            s@ != "depinfo"@ ==> backend is Err && backend->Err_0@
                == "expected \"depinfo\" (you should not see this message)"@,
    {
        if str_equal(s, "depinfo") {
            Ok(Backend::Depinfo)
        } else {
            Err("expected \"depinfo\" (you should not see this message)")
        }
    }
}

/// A profile that the check does not know.
#[derive(Debug)]
pub struct UnknownProfile {
    pub profile: String,
}

impl UnknownProfile {
    /// The text of the error.
    pub open spec fn text(self) -> Seq<char> {
        "unknown profile: `"@ + self.profile@ + "`, only `test` is currently supported"@
    }

    /// The text of the error.
    pub fn message(&self) -> (text: String)
        ensures
            text@ == self.text(),
    {
        let mut text = String::from_str("unknown profile: `");
        text.append(self.profile.as_str());
        text.append("`, only `test` is currently supported");
        text
    }
}

/// Whether unit tests are to be checked, by the profile asked for: not where
/// none was named, yes for `test`; any other profile is an error.
pub fn test_mode(profile: Option<&str>) -> (mode: Result<bool, UnknownProfile>)
    ensures
        match profile {
            None => mode == Ok::<bool, UnknownProfile>(false),
            Some(p) => if p@ == "test"@ {
                mode == Ok::<bool, UnknownProfile>(true)
            } else {
                mode is Err && mode->Err_0.profile@ == p@
            },
        },
{
    match profile {
        None => Ok(false),
        Some(p) => {
            if str_equal(p, "test") {
                Ok(true)
            } else {
                Err(UnknownProfile { profile: p.to_owned() })
            }
        },
    }
}

/// How verbose the build tool is asked to be: as often as the user asked for
/// it, but at most twice.
pub fn verbosity(verbose: u8) -> (level: u32)
    ensures
        level == (if verbose <= 2 { verbose as u32 } else { 2u32 }),
{
    if verbose <= 2 {
        verbose as u32
    } else {
        2
    }
}

} // verus!
