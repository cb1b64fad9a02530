//! Locating system libraries through `pkg-config`: the policy that decides
//! whether and how the tool is run, the parser of its output, and the
//! conversion of that output into build directives.
//!
//! A resolution has three steps. [`Config::find`] (or [`find_library`])
//! reads the environment and returns the [`Probe`] to run, or why none may
//! run. The caller runs it; [`archive_paths`] then lists the static archives
//! whose presence on disk decides how each library is linked, and
//! [`resolve_output`] turns the tool's output and the archives found into a
//! [`Library`] and the [`Directive`]s to print.

pub mod config;
pub mod environ;
pub mod output;
pub mod paths;
pub mod resolve;
mod text;

pub use config::{exit_failure_message, find_library, Config, Probe};
pub use environ::{disabled, envify, infer_static, target_supported, var};
pub use output::{parse_flags, scan_frameworks, split_words};
pub use paths::{is_under_system_root, join};
pub use resolve::{archive_paths, resolve_output, Directive, DirectiveKind, Library};
