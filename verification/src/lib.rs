//! Verified core of an inline-C testing harness: a snippet of C or C++
//! source text carries embedded configuration directives; the library
//! extracts and merges that configuration, derives compiler and linker
//! flag groups, plans the header-resolution pass, and assembles the
//! native compiler invocation together with the list of temporary
//! artifacts that must be cleaned up afterwards.
use vstd::prelude::*;

pub mod chars;
pub mod scan;
pub mod tokens;
pub mod config;
pub mod paths;
pub mod flags;
pub mod command;
pub mod toolchain;
pub mod includes;
pub mod fixer;
pub mod directives;

pub use chars::to_chars;
pub use chars::chars_to_string;
pub use tokens::tokenize;
pub use config::ConfigMap;
pub use directives::extract_config;
pub use flags::get_env_flags;
pub use flags::include_dirs;
pub use command::Language;
pub use command::BuildError;
pub use command::build_command_args;
pub use command::artifact_paths;
pub use toolchain::detect_host_toolchain;
pub use toolchain::triple_is_msvc;
pub use includes::extract_includes;
pub use includes::snippet_include_candidates;
pub use fixer::symlink_candidate;
pub use fixer::header_child_candidates;
pub use paths::header_candidates;

verus! {

} // verus!
