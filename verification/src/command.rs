//! The Toolchain Invoker's computed part: the language selection, the
//! build errors, the two positionally significant `LDFLAGS` tokens, the
//! output-file arguments, the full compiler argument list, and the
//! artifact list that must be cleaned up afterwards.
use vstd::prelude::*;
use crate::scan::matches_at;
use crate::scan::find_sub_at;
use crate::scan::lemma_find_sub_at;
use crate::scan::find_sub;
use crate::scan::matches_at_exec;
use crate::chars::to_chars;
use crate::chars::subvec;
use crate::chars::chars_to_string;
use crate::paths::spec_with_extension;
use crate::paths::with_extension;
use vstd::string::StringExecFns;

verus! {

/// The language a snippet is compiled as.
pub enum Language {
    C,
    Cxx,
}

impl Language {
    /// The file extension a staged source file of this language carries.
    pub fn to_string(&self) -> (r: String)
        ensures
            self is C ==> r@ == "c"@,
            self is Cxx ==> r@ == "cpp"@,
    {
        match self {
            Language::C => String::from_str("c"),
            Language::Cxx => String::from_str("cpp"),
        }
    }
}

/// Why a compiler invocation could not be assembled.
#[derive(PartialEq, Eq, Structural, Clone, Copy, Debug)]
pub enum BuildError {
    /// The detected host toolchain is not of the supported family.
    UnsupportedToolchain,
    /// `LDFLAGS` names a link search path but lacks its second token,
    /// the library to link against.
    MissingLinkLibrary,
}

/// `s` with every occurrence of `pat` removed, scanning left to right.
pub open spec fn remove_all(s: Seq<char>, pat: Seq<char>) -> Seq<char>
    decreases s.len(),
    via remove_all_decreases
{
    if pat.len() == 0 {
        s
    } else {
        let i = find_sub_at(s, 0, pat);
        if i == s.len() {
            s
        } else {
            s.subrange(0, i) + remove_all(s.skip(i + pat.len()), pat)
        }
    }
}

#[via_fn]
proof fn remove_all_decreases(s: Seq<char>, pat: Seq<char>) {
    if pat.len() > 0 {
        lemma_find_sub_at(s, 0, pat);
    }
}

/// Removes every occurrence of `pat` from `v`, scanning left to right.
pub fn remove_all_chars(v: &Vec<char>, pat: &Vec<char>) -> (r: Vec<char>)
    requires
        pat@.len() > 0,
    ensures
        r@ == remove_all(v@, pat@),
    decreases v@.len(),
{
    proof {
        lemma_find_sub_at(v@, 0, pat@);
    }
    let i = find_sub(v, 0, pat);
    if i == v.len() {
        subvec(v, 0, v.len())
    } else {
        let mut head = subvec(v, 0, i);
        let tail = subvec(v, i + pat.len(), v.len());
        let mut rest = remove_all_chars(&tail, pat);
        head.append(&mut rest);
        proof {
            assert(head@ =~= v@.subrange(0, i as int) + remove_all(v@.skip(i + pat@.len()), pat@));
        }
        head
    }
}

/// The decoration stripped from the link search path token.
pub open spec fn rpath_decoration() -> Seq<char> {
    "-rpath,"@
}

/// The dynamic-library suffix of the platform.
pub open spec fn dll_suffix() -> Seq<char> {
    ".dll"@
}

/// `s` ends with `pat`.
pub open spec fn spec_ends_with(s: Seq<char>, pat: Seq<char>) -> bool {
    matches_at(s, s.len() - pat.len(), pat)
}

/// The link search path: the first `LDFLAGS` token with every
/// occurrence of the `rpath` decoration removed.
pub open spec fn spec_link_path(ldflags: Seq<Seq<char>>) -> Seq<char> {
    remove_all(ldflags[0], rpath_decoration())
}

/// The library to link against: the second `LDFLAGS` token, with the
/// static-import-library suffix appended when it ends in the
/// dynamic-library suffix.
pub open spec fn spec_link_lib(ldflags: Seq<Seq<char>>) -> Seq<char> {
    if spec_ends_with(ldflags[1], dll_suffix()) {
        ldflags[1] + ".lib"@
    } else {
        ldflags[1]
    }
}

/// Reads the two positionally significant `LDFLAGS` tokens: the link
/// search path (decoration stripped) and the library name (suffix
/// normalized).  An empty `LDFLAGS` asks for no linking and yields
/// `None`; one naming a path without a library is refused.
pub fn link_arguments(ldflags: &Vec<String>) -> (r: Result<Option<(String, String)>, BuildError>)
    ensures
        ldflags@.len() == 0 ==> r == Ok::<Option<(String, String)>, BuildError>(None),
        ldflags@.len() == 1 ==> r == Err::<Option<(String, String)>, BuildError>(
            BuildError::MissingLinkLibrary,
        ),
        ldflags@.len() >= 2 ==> match r {
            Ok(Some(p)) => p.0@ == spec_link_path(ldflags.deep_view()) && p.1@ == spec_link_lib(
                ldflags.deep_view(),
            ),
            _ => false,
        },
{
    if ldflags.len() == 0 {
        return Ok(None);
    }
    if ldflags.len() == 1 {
        return Err(BuildError::MissingLinkLibrary);
    }
    let deco = to_chars("-rpath,");
    proof {
        reveal_strlit("-rpath,");
    }
    let raw = to_chars(ldflags[0].as_str());
    let stripped = remove_all_chars(&raw, &deco);
    let link_path = chars_to_string(&stripped);

    let libv = to_chars(ldflags[1].as_str());
    let suffix = to_chars(".dll");
    let lib_ends_dll = if suffix.len() > libv.len() {
        proof {
            assert(!spec_ends_with(libv@, suffix@));
        }
        false
    } else {
        matches_at_exec(&libv, libv.len() - suffix.len(), &suffix)
    };
    let link_lib = if lib_ends_dll {
        let mut l = ldflags[1].clone();
        l.append(".lib");
        l
    } else {
        ldflags[1].clone()
    };
    proof {
        assert(ldflags.deep_view()[0] == ldflags@[0]@);
        assert(ldflags.deep_view()[1] == ldflags@[1]@);
    }
    Ok(Some((link_path, link_lib)))
}

/// The output-file arguments: the strict toolchain's own front end
/// takes an object-file and an executable-file flag, each fused with
/// its path; any other front end takes `-o` and the path.
pub open spec fn spec_output_args(output: Seq<char>, msvc: bool, clang: bool) -> Seq<Seq<char>> {
    if msvc && !clang {
        seq!["-Fo"@ + spec_with_extension(output, "obj"@), "-Fe"@ + output]
    } else {
        seq!["-o"@, output]
    }
}

/// The output-file arguments for `output` (see [`spec_output_args`]).
pub fn output_file_args(output: &String, msvc: bool, clang: bool) -> (r: Vec<String>)
    ensures
        r.deep_view() == spec_output_args(output@, msvc, clang),
{
    let mut r: Vec<String> = Vec::new();
    if msvc && !clang {
        let mut fo = String::from_str("-Fo");
        let obj = with_extension(output, "obj");
        fo.append(obj.as_str());
        r.push(fo);
        let mut fe = String::from_str("-Fe");
        fe.append(output.as_str());
        r.push(fe);
        proof {
            assert(r.deep_view() =~= spec_output_args(output@, msvc, clang));
        }
    } else {
        r.push(String::from_str("-o"));
        r.push(output.clone());
        proof {
            assert(r.deep_view() =~= spec_output_args(output@, msvc, clang));
        }
    }
    r
}

/// The full compiler argument list: the `CFLAGS` tokens, the
/// output-file arguments, and the staged source file; when `LDFLAGS`
/// asks for linking, also the linker-directive separator, the library
/// to link, and the library search path flag.
pub open spec fn spec_command_args(
    cflags: Seq<Seq<char>>,
    output: Seq<char>,
    input: Seq<char>,
    ldflags: Seq<Seq<char>>,
    msvc: bool,
    clang: bool,
) -> Seq<Seq<char>> {
    cflags + spec_output_args(output, msvc, clang) + seq![input] + (if ldflags.len() == 0 {
        Seq::<Seq<char>>::empty()
    } else {
        seq!["/link"@, spec_link_lib(ldflags), "/LIBPATH:"@ + spec_link_path(ldflags)]
    })
}

/// Assembles the compiler argument list.  An empty `LDFLAGS` builds a
/// command without a link tail; one naming a path without a library is
/// the configuration error; success is owed in every other case.
pub fn build_command_args(
    cflags: &Vec<String>,
    output: &String,
    input: &String,
    ldflags: &Vec<String>,
    msvc: bool,
    clang: bool,
) -> (r: Result<Vec<String>, BuildError>)
    ensures
        ldflags@.len() == 1 ==> r == Err::<Vec<String>, BuildError>(BuildError::MissingLinkLibrary),
        ldflags@.len() != 1 ==> match r {
            Ok(args) => args.deep_view() == spec_command_args(
                cflags.deep_view(),
                output@,
                input@,
                ldflags.deep_view(),
                msvc,
                clang,
            ),
            Err(_) => false,
        },
{
    let link = match link_arguments(ldflags) {
        Ok(l) => l,
        Err(e) => {
            return Err(e);
        },
    };
    let mut args: Vec<String> = Vec::new();
    let mut i: usize = 0;
    while i < cflags.len()
        invariant
            i <= cflags@.len(),
            args.deep_view() == cflags.deep_view().take(i as int),
        decreases cflags@.len() - i,
    {
        let ghost prev = args.deep_view();
        let s = cflags[i].clone();
        proof {
            assert(cflags.deep_view()[i as int] == cflags@[i as int]@);
        }
        args.push(s);
        proof {
            assert(args.deep_view() =~= prev.push(cflags@[i as int]@));
            assert(args.deep_view() =~= cflags.deep_view().take(i as int + 1));
        }
        i = i + 1;
    }
    proof {
        assert(args.deep_view() =~= cflags.deep_view());
    }
    let mut out_args = output_file_args(output, msvc, clang);
    args.append(&mut out_args);
    proof {
        assert(args.deep_view() =~= cflags.deep_view() + spec_output_args(output@, msvc, clang));
    }
    args.push(input.clone());
    match link {
        None => {
            proof {
                assert(args.deep_view() =~= spec_command_args(
                    cflags.deep_view(),
                    output@,
                    input@,
                    ldflags.deep_view(),
                    msvc,
                    clang,
                ));
            }
        },
        Some(l) => {
            args.push(String::from_str("/link"));
            args.push(l.1);
            let mut libpath = String::from_str("/LIBPATH:");
            libpath.append(l.0.as_str());
            args.push(libpath);
            proof {
                assert(args.deep_view() =~= spec_command_args(
                    cflags.deep_view(),
                    output@,
                    input@,
                    ldflags.deep_view(),
                    msvc,
                    clang,
                ));
            }
        },
    }
    Ok(args)
}

/// The artifacts a compile job creates and must delete afterwards: the
/// staged source file, the output executable, and the intermediate
/// object file sharing the output's stem.
pub open spec fn spec_artifacts(input: Seq<char>, output: Seq<char>) -> Seq<Seq<char>> {
    seq![input, output, spec_with_extension(output, "obj"@)]
}

/// The artifact list for a compile job (see [`spec_artifacts`]).
pub fn artifact_paths(input: &String, output: &String) -> (r: Vec<String>)
    ensures
        r.deep_view() == spec_artifacts(input@, output@),
{
    let mut r: Vec<String> = Vec::new();
    r.push(input.clone());
    r.push(output.clone());
    r.push(with_extension(output, "obj"));
    proof {
        assert(r.deep_view() =~= spec_artifacts(input@, output@));
    }
    r
}

} // verus!
