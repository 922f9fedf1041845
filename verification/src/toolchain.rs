//! Host toolchain detection: the snippet pipeline supports exactly one
//! native-compiler family, and refuses to proceed on any other host.
use vstd::prelude::*;
use crate::scan::find_sub_at;
use crate::scan::find_sub;
use crate::chars::to_chars;
use crate::command::BuildError;

verus! {

/// The substring that marks a triple as naming the supported toolchain
/// family.
pub open spec fn msvc_marker() -> Seq<char> {
    "msvc"@
}

/// Whether a target triple names the supported toolchain family.
pub open spec fn spec_is_msvc_triple(s: Seq<char>) -> bool {
    find_sub_at(s, 0, msvc_marker()) < s.len()
}

/// Relies on `target_lexicon::HOST` and its `Display` form: the triple
/// of the host this library was compiled for, in the standard
/// `architecture-vendor-system` rendering.
#[verifier::external_body]
fn host_triple() -> String {
    target_lexicon::HOST.to_string()
}

/// Whether `triple` names the supported toolchain family.
pub fn triple_is_msvc(triple: &str) -> (r: bool)
    ensures
        r == spec_is_msvc_triple(triple@),
{
    let v = to_chars(triple);
    let m = to_chars("msvc");
    let i = find_sub(&v, 0, &m);
    i < v.len()
}

/// Detects the host triple; every accepted host names the supported
/// toolchain family, and every other host is refused as an
/// environment error.
pub fn detect_host_toolchain() -> (r: Result<String, BuildError>)
    ensures
        match r {
            Ok(t) => spec_is_msvc_triple(t@),
            Err(e) => e == BuildError::UnsupportedToolchain,
        },
{
    let host = host_triple();
    if triple_is_msvc(host.as_str()) {
        Ok(host)
    } else {
        Err(BuildError::UnsupportedToolchain)
    }
}

} // verus!
