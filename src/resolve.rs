//! Finding an external program on the search path: the first directory, in
//! order, whose entry for the name is a regular file that some class of
//! users may execute.
use vstd::prelude::*;
use crate::text::{concat3, fields, split_fields, views};

verus! {

/// What a lookup of a path on the file system reports of the entry there.
#[derive(Clone, Copy, Debug, PartialEq, Eq, Structural)]
pub struct Posture {
    /// The entry is a regular file.
    pub is_file: bool,
    /// The entry's permission bits, as `st_mode` holds them.
    pub mode: u32,
}

/// Execute permission for owner, group or others.
pub const ANY_EXECUTE: u32 = 0o111;

/// Whether an entry with this posture (`None`: no entry) can be run: a
/// regular file with at least one execute bit set.
pub open spec fn runnable(p: Option<Posture>) -> bool {
    match p {
        Some(p) => p.is_file && p.mode & ANY_EXECUTE != 0,
        None => false,
    }
}

/// Whether an entry with this posture can be run.
pub fn is_runnable(p: Option<Posture>) -> (r: bool)
    ensures
        r == runnable(p),
{
    match p {
        Some(p) => p.is_file && p.mode & ANY_EXECUTE != 0,
        None => false,
    }
}

/// The path at which `dir` would hold `name`.
pub open spec fn candidate(dir: Seq<char>, name: Seq<char>) -> Seq<char> {
    dir + "/"@ + name
}

/// The paths tried for `name`, in order, under the search path value
/// `search_path` (`None`: not set, so nothing is tried). Each field between
/// colons is a directory, an empty one included.
pub open spec fn candidates(search_path: Option<Seq<char>>, name: Seq<char>) -> Seq<Seq<char>> {
    match search_path {
        Some(v) => fields(v, ':').map_values(|d: Seq<char>| candidate(d, name)),
        None => seq![],
    }
}

/// The text form of an optional string.
pub open spec fn opt_view(r: Option<String>) -> Option<Seq<char>> {
    match r {
        Some(s) => Some(s@),
        None => None,
    }
}

/// The text form of an optional string slice.
pub open spec fn opt_str_view(r: Option<&str>) -> Option<Seq<char>> {
    match r {
        Some(s) => Some(s@),
        None => None,
    }
}

/// `probe` can answer for `path` with an entry that is runnable, or not,
/// as `ok` says.
pub open spec fn answered<F: Fn(&str) -> Option<Posture>>(probe: F, path: Seq<char>, ok: bool) -> bool {
    exists|p: &str, o: Option<Posture>| p@ == path && probe.ensures((p,), o) && runnable(o) == ok
}

/// `r` is what a search of `cands` with `probe` gives: the first candidate
/// for which the probe found a runnable entry, every earlier one having
/// been found not runnable; or nothing, every candidate having been found
/// not runnable.
pub open spec fn search_outcome<F: Fn(&str) -> Option<Posture>>(
    probe: F,
    cands: Seq<Seq<char>>,
    r: Option<Seq<char>>,
) -> bool {
    match r {
        Some(found) => exists|k: int|
            0 <= k < cands.len() && found == cands[k] && answered(probe, cands[k], true) && forall|
                j: int,
            |
                0 <= j < k ==> answered(probe, cands[j], false),
        None => forall|j: int| 0 <= j < cands.len() ==> answered(probe, cands[j], false),
    }
}

/// Looks `name` up on the search path `search_path`, asking `probe` about
/// one candidate path after another and stopping at the first runnable one.
pub fn resolve<F: Fn(&str) -> Option<Posture>>(
    search_path: Option<&str>,
    name: &str,
    probe: &F,
) -> (r: Option<String>)
    requires
        forall|p: &str| probe.requires((p,)),
    ensures
        search_outcome(*probe, candidates(opt_str_view(search_path), name@), opt_view(r)),
{
    let ghost cands = candidates(opt_str_view(search_path), name@);
    let value = match search_path {
        Some(v) => v,
        None => {
            return None;
        },
    };
    let dirs = split_fields(value, ':');
    assert(cands.len() == dirs@.len());
    let mut i: usize = 0;
    while i < dirs.len()
        invariant
            forall|p: &str| probe.requires((p,)),
            cands == candidates(opt_str_view(search_path), name@),
            search_path == Some(value),
            views(dirs@) == fields(value@, ':'),
            cands.len() == dirs@.len(),
            i <= dirs@.len(),
            forall|j: int| 0 <= j < i ==> answered(*probe, cands[j], false),
        decreases dirs@.len() - i,
    {
        let path = concat3(dirs[i].as_str(), "/", name);
        assert(path@ == cands[i as int]) by {
            assert(views(dirs@)[i as int] == dirs@[i as int]@);
        };
        let o = probe(path.as_str());
        if is_runnable(o) {
            assert(answered(*probe, cands[i as int], true));
            return Some(path);
        }
        assert(answered(*probe, cands[i as int], false));
        i = i + 1;
    }
    None
}


/// Resolution is idempotent: where the file system answers each path the
/// same way every time (as `fs` says), two resolutions of the same name under
/// the same search path give the same result.
pub proof fn lemma_resolution_idempotent<F: Fn(&str) -> Option<Posture>>(
    probe: F,
    fs: spec_fn(Seq<char>) -> Option<Posture>,
    search_path: Option<Seq<char>>,
    name: Seq<char>,
    first: Option<Seq<char>>,
    second: Option<Seq<char>>,
)
    requires
        forall|p: &str, o: Option<Posture>| #[trigger] probe.ensures((p,), o) ==> o == fs(p@),
        search_outcome(probe, candidates(search_path, name), first),
        search_outcome(probe, candidates(search_path, name), second),
    ensures
        first == second,
{
    let cands = candidates(search_path, name);
    assert forall|j: int, ok: bool| 0 <= j < cands.len() && #[trigger] answered(probe, cands[j], ok)
        implies runnable(fs(cands[j])) == ok by {
        let (p, o) = choose|p: &str, o: Option<Posture>|
            p@ == cands[j] && probe.ensures((p,), o) && runnable(o) == ok;
    };
    match (first, second) {
        (Some(a), Some(b)) => {
            let k1 = choose|k: int|
                0 <= k < cands.len() && a == cands[k] && answered(probe, cands[k], true) && forall|
                    j: int,
                |
                    0 <= j < k ==> answered(probe, cands[j], false);
            let k2 = choose|k: int|
                0 <= k < cands.len() && b == cands[k] && answered(probe, cands[k], true) && forall|
                    j: int,
                |
                    0 <= j < k ==> answered(probe, cands[j], false);
            if k1 < k2 {
                assert(answered(probe, cands[k1], false));
            } else if k2 < k1 {
                assert(answered(probe, cands[k2], false));
            }
        },
        (Some(a), None) => {
            let k = choose|k: int|
                0 <= k < cands.len() && a == cands[k] && answered(probe, cands[k], true) && forall|
                    j: int,
                |
                    0 <= j < k ==> answered(probe, cands[j], false);
            assert(answered(probe, cands[k], false));
        },
        (None, Some(b)) => {
            let k = choose|k: int|
                0 <= k < cands.len() && b == cands[k] && answered(probe, cands[k], true) && forall|
                    j: int,
                |
                    0 <= j < k ==> answered(probe, cands[j], false);
            assert(answered(probe, cands[k], false));
        },
        (None, None) => {},
    }
}

} // verus!
