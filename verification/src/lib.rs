//! Detection of dependencies that a package declares but never links.

pub mod cmdline;
pub mod collections;
pub mod defs;
pub mod depinfo;
pub mod evidence;
pub mod interceptor;
pub mod laws;
pub mod names;
pub mod options;
pub mod outcome;
pub mod paths;
pub mod report;
pub mod style;
pub mod text;
pub mod udeps;
