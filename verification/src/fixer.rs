//! The Header Symlink Fixer's decisions, and a model of its effect on a
//! snapshot of the file system.  A header whose whole content names a
//! sibling file stands in for a symbolic link and is overwritten in
//! place with that file's content; the pass then follows the header's
//! own `#include "…"` directives.
use vstd::prelude::*;
use crate::paths::spec_join;
use crate::paths::spec_parent_dir;
use crate::paths::parent_dir;
use crate::paths::join_path;
use crate::includes::spec_includes;
use crate::includes::extract_includes;

verus! {

/// The sibling file a header stands in for when it emulates a symbolic
/// link: its whole content, read as a name relative to its directory.
pub open spec fn spec_symlink_candidate(path: Seq<char>, content: Seq<char>) -> Seq<char> {
    spec_join(spec_parent_dir(path), content)
}

/// The path whose readability decides whether the header at `path`,
/// holding `content`, stands in for a symbolic link (see
/// [`spec_symlink_candidate`]).
pub fn symlink_candidate(path: &String, content: &String) -> (r: String)
    ensures
        r@ == spec_symlink_candidate(path@, content@),
{
    let parent = parent_dir(path);
    join_path(&parent, content)
}

/// The include targets of a header's content, resolved against the
/// header's directory: the paths the fixer recurses into.
pub open spec fn spec_child_candidates(path: Seq<char>, content: Seq<char>) -> Seq<Seq<char>> {
    spec_includes(content).map_values(|t: Seq<char>| spec_join(spec_parent_dir(path), t))
}

/// The paths the fixer recurses into from the header at `path` holding
/// `content` (see [`spec_child_candidates`]).
pub fn header_child_candidates(path: &String, content: &String) -> (r: Vec<String>)
    ensures
        r.deep_view() == spec_child_candidates(path@, content@),
{
    let parent = parent_dir(path);
    let inc = extract_includes(content.as_str());
    let mut r: Vec<String> = Vec::new();
    let mut j: usize = 0;
    while j < inc.len()
        invariant
            j <= inc@.len(),
            inc.deep_view() == spec_includes(content@),
            parent@ == spec_parent_dir(path@),
            r.deep_view() == spec_child_candidates(path@, content@).take(j as int),
        decreases inc@.len() - j,
    {
        proof {
            assert(inc.deep_view()[j as int] == inc@[j as int]@);
        }
        let c = join_path(&parent, &inc[j]);
        let ghost prev = r.deep_view();
        r.push(c);
        proof {
            assert(r.deep_view() =~= prev.push(c@));
            assert(r.deep_view() =~= spec_child_candidates(path@, content@).take(j as int + 1));
        }
        j = j + 1;
    }
    proof {
        let all = spec_child_candidates(path@, content@);
        assert(all.take(all.len() as int) =~= all);
    }
    r
}

/// One header repaired on a file-system snapshot (a map from path to
/// content): when the header exists and its content names a readable
/// sibling, the header is overwritten with that sibling's content.
pub open spec fn fix_header(fs: Map<Seq<char>, Seq<char>>, path: Seq<char>) -> Map<
    Seq<char>,
    Seq<char>,
> {
    if fs.contains_key(path) && fs.contains_key(spec_symlink_candidate(path, fs[path])) {
        fs.insert(path, fs[spec_symlink_candidate(path, fs[path])])
    } else {
        fs
    }
}

/// One fixing pass: the headers of `paths` repaired in order.
pub open spec fn fix_pass(fs: Map<Seq<char>, Seq<char>>, paths: Seq<Seq<char>>) -> Map<
    Seq<char>,
    Seq<char>,
>
    decreases paths.len(),
{
    if paths.len() == 0 {
        fs
    } else {
        fix_pass(fix_header(fs, paths.first()), paths.drop_first())
    }
}

/// A header tree is fixed when none of its listed headers still stands
/// in for a symbolic link.
pub open spec fn tree_fixed(fs: Map<Seq<char>, Seq<char>>, paths: Seq<Seq<char>>) -> bool {
    forall|i: int|
        0 <= i < paths.len() ==> !(fs.contains_key(paths[i]) && fs.contains_key(
            spec_symlink_candidate(paths[i], fs[paths[i]]),
        ))
}

/// A pass over no candidate headers performs no writes.
pub proof fn lemma_fix_pass_no_candidates(fs: Map<Seq<char>, Seq<char>>)
    ensures
        fix_pass(fs, Seq::<Seq<char>>::empty()) == fs,
{
}

/// Header fixing is idempotent: a pass over an already-fixed header
/// tree changes no file, so running the fixer again after a pass that
/// fixed every header produces no further content changes.
pub proof fn lemma_fix_pass_fixed_identity(fs: Map<Seq<char>, Seq<char>>, paths: Seq<Seq<char>>)
    requires
        tree_fixed(fs, paths),
    ensures
        fix_pass(fs, paths) == fs,
    decreases paths.len(),
{
    if paths.len() > 0 {
        assert(fix_header(fs, paths.first()) == fs) by {
            assert(paths[0] == paths.first());
        }
        assert(tree_fixed(fs, paths.drop_first())) by {
            assert forall|i: int| 0 <= i < paths.drop_first().len() implies !(fs.contains_key(
                paths.drop_first()[i],
            ) && fs.contains_key(
                spec_symlink_candidate(paths.drop_first()[i], fs[paths.drop_first()[i]]),
            )) by {
                assert(paths.drop_first()[i] == paths[i + 1]);
            }
        }
        lemma_fix_pass_fixed_identity(fs, paths.drop_first());
    }
}

} // verus!
