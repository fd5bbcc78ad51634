//! The facts that one compiler command line tells about the unit it compiles.

use vstd::prelude::*;
use vstd::string::StringExecFns;

use crate::collections::{views, StrSet};
use crate::text::{after_first, before_first, ends_with, has_suffix, split_first, str_equal};

verus! {

/// What is known of one compiled unit.
#[derive(Debug)]
pub struct CmdInfo {
    /// The number of the package that the unit belongs to.
    pub pkg: u64,
    /// Whether the unit is a build script.
    pub custom_build: bool,
    pub crate_name: String,
    pub crate_type: String,
    /// The suffix that tells apart builds of one crate.
    pub extra_filename: String,
    /// Whether lints are capped at `allow` for the unit.
    pub cap_lints_allow: bool,
    pub out_dir: String,
    /// The names under which the unit may refer to other crates.
    pub extern_crate_names: StrSet,
}

/// A unit as plain values.
pub struct CmdInfoView {
    pub pkg: u64,
    pub custom_build: bool,
    pub crate_name: Seq<char>,
    pub crate_type: Seq<char>,
    pub extra_filename: Seq<char>,
    pub cap_lints_allow: bool,
    pub out_dir: Seq<char>,
    pub extern_crate_names: Set<Seq<char>>,
}

impl View for CmdInfo {
    type V = CmdInfoView;

    open spec fn view(&self) -> CmdInfoView {
        CmdInfoView {
            pkg: self.pkg,
            custom_build: self.custom_build,
            crate_name: self.crate_name@,
            crate_type: self.crate_type@,
            extra_filename: self.extra_filename@,
            cap_lints_allow: self.cap_lints_allow,
            out_dir: self.out_dir@,
            extern_crate_names: self.extern_crate_names@,
        }
    }
}

impl Clone for CmdInfo {
    /// A record of the same facts.
    fn clone(&self) -> (copy: CmdInfo)
        ensures
            copy@ == self@,
    {
        CmdInfo {
            pkg: self.pkg,
            custom_build: self.custom_build,
            crate_name: self.crate_name.clone(),
            crate_type: self.crate_type.clone(),
            extra_filename: self.extra_filename.clone(),
            cap_lints_allow: self.cap_lints_allow,
            out_dir: self.out_dir.clone(),
            extern_crate_names: self.extern_crate_names.clone(),
        }
    }
}

impl CmdInfoView {
    /// The name of the file that holds the unit's output, without extension:
    /// `lib` for a library or a procedural macro, then the crate's name and
    /// the extra filename.
    pub open spec fn artifact_base_name(self) -> Seq<char> {
        (if has_suffix(self.crate_type, "lib"@) || self.crate_type == "proc-macro"@ {
            "lib"@
        } else {
            Seq::empty()
        }) + self.crate_name + self.extra_filename
    }

    /// The name of the unit's dependency listing: the crate's name, the extra
    /// filename and `.d`.
    pub open spec fn depinfo_filename(self) -> Seq<char> {
        self.crate_name + self.extra_filename + ".d"@
    }

    /// The name of the unit's analysis record, below its output directory:
    /// `save-analysis/`, the name of the output file and `.json`.
    pub open spec fn save_analysis_filename(self) -> Seq<char> {
        "save-analysis/"@ + self.artifact_base_name() + ".json"@
    }
}

impl CmdInfo {
    /// The name of the file that holds the unit's output, without extension.
    pub fn get_artifact_base_name(&self) -> (name: String)
        ensures
            name@ == self@.artifact_base_name(),
    {
        let mut name = if ends_with(self.crate_type.as_str(), "lib") || str_equal(
            self.crate_type.as_str(),
            "proc-macro",
        ) {
            String::from_str("lib")
        } else {
            String::new()
        };
        name.append(self.crate_name.as_str());
        name.append(self.extra_filename.as_str());
        name
    }

    /// The name of the unit's analysis record, below its output directory.
    pub fn get_save_analysis_filename(&self) -> (name: String)
        ensures
            name@ == self@.save_analysis_filename(),
    {
        let mut name = String::from_str("save-analysis/");
        name.append(self.get_artifact_base_name().as_str());
        name.append(".json");
        name
    }

    /// The name of the unit's dependency listing.
    pub fn get_depinfo_filename(&self) -> (name: String)
        ensures
            name@ == self@.depinfo_filename(),
    {
        let mut name = self.crate_name.clone();
        name.append(self.extra_filename.as_str());
        name.append(".d");
        name
    }
}

/// Why a command line does not describe a unit.
#[derive(Debug, Clone, Copy, PartialEq, Eq, Structural)]
pub enum CmdInfoError {
    /// No `--crate-name` was given a value.
    CrateNameNeeded,
    /// No `-C extra-filename=..` was given.
    ExtraFilenameNeeded,
    /// No `--out-dir` was given a value.
    OutDirNeeded,
}

impl CmdInfoError {
    /// The text of the error.
    pub open spec fn text(self) -> Seq<char> {
        match self {
            CmdInfoError::CrateNameNeeded => "crate name needed"@,
            CmdInfoError::ExtraFilenameNeeded => "extra-filename needed"@,
            CmdInfoError::OutDirNeeded => "outdir needed"@,
        }
    }

    /// The text of the error.
    pub fn message(&self) -> (text: String)
        ensures
            text@ == self.text(),
    {
        match self {
            CmdInfoError::CrateNameNeeded => String::from_str("crate name needed"),
            CmdInfoError::ExtraFilenameNeeded => String::from_str("extra-filename needed"),
            CmdInfoError::OutDirNeeded => String::from_str("outdir needed"),
        }
    }
}

/// What the flags read so far have told.
pub struct Facts {
    pub crate_name: Option<Seq<char>>,
    pub crate_type: Option<Seq<char>>,
    pub extra_filename: Option<Seq<char>>,
    pub cap_lints_allow: bool,
    pub out_dir: Option<Seq<char>>,
    pub extern_crate_names: Set<Seq<char>>,
    /// Whether some `--extern` value held more than one `=`.
    pub malformed_extern: bool,
}

/// Nothing told yet.
pub open spec fn no_facts() -> Facts {
    Facts {
        crate_name: None,
        crate_type: None,
        extra_filename: None,
        cap_lints_allow: false,
        out_dir: None,
        extern_crate_names: Set::empty(),
        malformed_extern: false,
    }
}

/// Whether `flag` is one of the flags that take the next token as their value.
pub open spec fn takes_value(flag: Seq<char>) -> bool {
    ||| flag == "--extern"@
    ||| flag == "--crate-name"@
    ||| flag == "--crate-type"@
    ||| flag == "--cap-lints"@
    ||| flag == "--out-dir"@
    ||| flag == "-C"@
}

/// The facts after `flag` was read with `value`. An `--extern` value names a
/// crate before its first `=`; a later `--crate-name`, `--crate-type`,
/// `--out-dir` or `-C extra-filename=..` replaces an earlier one; of a `-C`
/// value only what stands between its first and second `=` is kept.
pub open spec fn learn(facts: Facts, flag: Seq<char>, value: Seq<char>) -> Facts {
    if flag == "--extern"@ {
        Facts {
            extern_crate_names: facts.extern_crate_names.insert(before_first(value, '=')),
            malformed_extern: facts.malformed_extern || after_first(value, '=').contains('='),
            ..facts
        }
    } else if flag == "--crate-name"@ {
        Facts { crate_name: Some(value), ..facts }
    } else if flag == "--crate-type"@ {
        Facts { crate_type: Some(value), ..facts }
    } else if flag == "--cap-lints"@ {
        Facts { cap_lints_allow: facts.cap_lints_allow || value == "allow"@, ..facts }
    } else if flag == "--out-dir"@ {
        Facts { out_dir: Some(value), ..facts }
    } else if flag == "-C"@ && value.contains('=') && before_first(value, '=')
        == "extra-filename"@ {
        Facts { extra_filename: Some(before_first(after_first(value, '='), '=')), ..facts }
    } else {
        facts
    }
}

/// The facts after the tokens from place `from` on were read. A flag that
/// takes a value uses up the token after it, whatever that token is; any other
/// token is passed over.
pub open spec fn scan(args: Seq<Seq<char>>, from: int, facts: Facts) -> Facts
    decreases args.len() - from,
{
    if from < 0 || from >= args.len() {
        facts
    } else if takes_value(args[from]) {
        if from + 1 < args.len() {
            scan(args, from + 2, learn(facts, args[from], args[from + 1]))
        } else {
            facts
        }
    } else {
        scan(args, from + 1, facts)
    }
}

/// Whether every `--extern` value of the command line is a bare name or a name,
/// one `=` and a path.
pub open spec fn extern_values_well_formed(args: Seq<Seq<char>>) -> bool {
    !scan(args, 0, no_facts()).malformed_extern
}

/// The unit that the facts describe: the crate type is `bin` where none was
/// told; crate name, extra filename and output directory must have been told,
/// and the first of them that was not is the error.
pub open spec fn describe(pkg: u64, custom_build: bool, facts: Facts) -> Result<
    CmdInfoView,
    CmdInfoError,
> {
    if facts.crate_name is None {
        Err(CmdInfoError::CrateNameNeeded)
    } else if facts.extra_filename is None {
        Err(CmdInfoError::ExtraFilenameNeeded)
    } else if facts.out_dir is None {
        Err(CmdInfoError::OutDirNeeded)
    } else {
        Ok(
            CmdInfoView {
                pkg,
                custom_build,
                crate_name: facts.crate_name->0,
                crate_type: match facts.crate_type {
                    Some(t) => t,
                    None => "bin"@,
                },
                extra_filename: facts.extra_filename->0,
                cap_lints_allow: facts.cap_lints_allow,
                out_dir: facts.out_dir->0,
                extern_crate_names: facts.extern_crate_names,
            },
        )
    }
}

/// The unit that a command line describes.
pub open spec fn cmd_info_of(pkg: u64, custom_build: bool, args: Seq<Seq<char>>) -> Result<
    CmdInfoView,
    CmdInfoError,
> {
    describe(pkg, custom_build, scan(args, 0, no_facts()))
}

/// What the exec scan has gathered, as facts.
spec fn gathered(
    crate_name: Option<String>,
    crate_type: Option<String>,
    extra_filename: Option<String>,
    cap_lints_allow: bool,
    out_dir: Option<String>,
    extern_crate_names: StrSet,
    malformed_extern: bool,
) -> Facts {
    Facts {
        crate_name: match crate_name {
            Some(s) => Some(s@),
            None => None,
        },
        crate_type: match crate_type {
            Some(s) => Some(s@),
            None => None,
        },
        extra_filename: match extra_filename {
            Some(s) => Some(s@),
            None => None,
        },
        cap_lints_allow,
        out_dir: match out_dir {
            Some(s) => Some(s@),
            None => None,
        },
        extern_crate_names: extern_crate_names@,
        malformed_extern,
    }
}

/// Whether every `--extern` value of the command line is a bare name or a name,
/// one `=` and a path.
pub fn check_extern_values(args: &Vec<String>) -> (well_formed: bool)
    ensures
        well_formed == extern_values_well_formed(views(args@)),
{
    let ghost tokens = views(args@);
    let ghost mut facts = no_facts();
    let mut malformed = false;
    let mut i: usize = 0;
    while i < args.len()
        invariant
            tokens == views(args@),
            i <= args.len() + 1,
            facts.malformed_extern == malformed,
            scan(tokens, i as int, facts) == scan(tokens, 0, no_facts()),
        decreases args.len() + 1 - i,
    {
        let flag = args[i].as_str();
        assert(tokens[i as int] == flag@);
        if str_equal(flag, "--extern") || str_equal(flag, "--crate-name") || str_equal(
            flag,
            "--crate-type",
        ) || str_equal(flag, "--cap-lints") || str_equal(flag, "--out-dir") || str_equal(
            flag,
            "-C",
        ) {
            if i + 1 < args.len() {
                let value = args[i + 1].as_str();
                assert(tokens[i + 1] == value@);
                if str_equal(flag, "--extern") {
                    let parts = split_first(value, '=');
                    if let Some(rest) = parts.1 {
                        let more = split_first(rest.as_str(), '=');
                        if more.1.is_some() {
                            malformed = true;
                        }
                    } else {
                        assert(!after_first(value@, '=').contains('='));
                    }
                }
                proof {
                    facts = learn(facts, flag@, value@);
                }
                i += 2;
            } else {
                i = args.len();
            }
        } else {
            i += 1;
        }
    }
    !malformed
}

/// Reads the facts about a unit off its compiler command line. Flags that are
/// not known are passed over.
pub fn cmd_info(pkg: u64, custom_build: bool, args: &Vec<String>) -> (result: Result<
    CmdInfo,
    CmdInfoError,
>)
    requires
        extern_values_well_formed(views(args@)),
    ensures
        match result {
            Ok(info) => cmd_info_of(pkg, custom_build, views(args@)) == Ok::<
                CmdInfoView,
                CmdInfoError,
            >(info@),
            Err(e) => cmd_info_of(pkg, custom_build, views(args@)) == Err::<
                CmdInfoView,
                CmdInfoError,
            >(e),
        },
{
    let ghost tokens = views(args@);
    let ghost mut facts = no_facts();
    let mut crate_name: Option<String> = None;
    let mut crate_type: Option<String> = None;
    let mut extra_filename: Option<String> = None;
    let mut cap_lints_allow = false;
    let mut out_dir: Option<String> = None;
    let mut extern_crate_names = StrSet::new();
    let mut i: usize = 0;
    while i < args.len()
        invariant
            tokens == views(args@),
            i <= args.len() + 1,
            facts == gathered(
                crate_name,
                crate_type,
                extra_filename,
                cap_lints_allow,
                out_dir,
                extern_crate_names,
                facts.malformed_extern,
            ),
            scan(tokens, i as int, facts) == scan(tokens, 0, no_facts()),
        decreases args.len() + 1 - i,
    {
        let flag = args[i].as_str();
        assert(tokens[i as int] == flag@);
        if i + 1 >= args.len() {
            i = args.len();
        } else {
            let value = args[i + 1].as_str();
            assert(tokens[i + 1] == value@);
            let ghost next = learn(facts, flag@, value@);
            if str_equal(flag, "--extern") {
                let parts = split_first(value, '=');
                extern_crate_names.insert(parts.0);
                i += 2;
            } else if str_equal(flag, "--crate-name") {
                crate_name = Some(value.to_owned());
                i += 2;
            } else if str_equal(flag, "--crate-type") {
                crate_type = Some(value.to_owned());
                i += 2;
            } else if str_equal(flag, "--cap-lints") {
                if str_equal(value, "allow") {
                    cap_lints_allow = true;
                }
                i += 2;
            } else if str_equal(flag, "--out-dir") {
                out_dir = Some(value.to_owned());
                i += 2;
            } else if str_equal(flag, "-C") {
                let parts = split_first(value, '=');
                if let Some(rest) = parts.1 {
                    if str_equal(parts.0.as_str(), "extra-filename") {
                        let more = split_first(rest.as_str(), '=');
                        extra_filename = Some(more.0);
                    }
                }
                i += 2;
            } else {
                i += 1;
            }
            proof {
                if takes_value(flag@) {
                    facts = next;
                }
            }
        }
    }
    let ghost told = scan(tokens, 0, no_facts());
    assert(told == facts);
    let crate_name = match crate_name {
        Some(name) => name,
        None => {
            return Err(CmdInfoError::CrateNameNeeded);
        },
    };
    let crate_type = match crate_type {
        Some(ty) => ty,
        None => String::from_str("bin"),
    };
    let extra_filename = match extra_filename {
        Some(extra) => extra,
        None => {
            return Err(CmdInfoError::ExtraFilenameNeeded);
        },
    };
    let out_dir = match out_dir {
        Some(dir) => dir,
        None => {
            return Err(CmdInfoError::OutDirNeeded);
        },
    };
    Ok(
        CmdInfo {
            pkg,
            custom_build,
            crate_name,
            crate_type,
            extra_filename,
            cap_lints_allow,
            out_dir,
            extern_crate_names,
        },
    )
}

} // verus!
