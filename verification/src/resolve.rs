//! The component resolver: a pure, stateless lookup of a component name
//! against an ordered list of search locations.
//!
//! A search location is a snapshot of one directory: its path and the files
//! it holds.  Resolution tries the locations in declared order and the first
//! location holding a file of the wanted name wins — the order is
//! significant, deterministic and stable (see [`lemma_search_order`]).
//! Nothing is cached between lookups.

use vstd::prelude::*;

use crate::err::{Error, ErrorKind, ErrorV};
use crate::lex::str_eq;

verus! {

/// One file of a search location: its name, and its text where the pipeline
/// may need to read it (fit descriptions; other files' text is never read
/// by the conversion core).
#[derive(Debug)]
pub struct DirFile {
    pub name: String,
    pub text: String,
}

#[verifier::ext_equal]
pub struct DirFileV {
    pub name: Seq<char>,
    pub text: Seq<char>,
}

impl DeepView for DirFile {
    type V = DirFileV;

    open spec fn deep_view(&self) -> DirFileV {
        DirFileV { name: self.name@, text: self.text@ }
    }
}

/// A search location: a directory path and a snapshot of its entries.
#[derive(Debug)]
pub struct Dir {
    pub path: String,
    pub files: Vec<DirFile>,
}

#[verifier::ext_equal]
pub struct DirV {
    pub path: Seq<char>,
    pub files: Seq<DirFileV>,
}

impl DeepView for Dir {
    type V = DirV;

    open spec fn deep_view(&self) -> DirV {
        DirV { path: self.path@, files: self.files.deep_view() }
    }
}

/// The first file of `files` from position `k` on that carries `name`.
pub open spec fn spec_file_index(files: Seq<DirFileV>, name: Seq<char>, k: int) -> Option<int>
    decreases files.len() - k,
{
    if k < 0 || k >= files.len() {
        None
    } else if files[k].name == name {
        Some(k)
    } else {
        spec_file_index(files, name, k + 1)
    }
}

/// The first location from position `k` on that holds a file named `name`,
/// together with the index of that file inside it.
pub open spec fn spec_find_from(dirs: Seq<DirV>, name: Seq<char>, k: int) -> Option<(int, int)>
    decreases dirs.len() - k,
{
    if k < 0 || k >= dirs.len() {
        None
    } else {
        match spec_file_index(dirs[k].files, name, 0) {
            Some(f) => Some((k, f)),
            None => spec_find_from(dirs, name, k + 1),
        }
    }
}

/// Resolution of a component name against the ordered search locations: the
/// earliest location holding the name wins.
pub open spec fn spec_find(dirs: Seq<DirV>, name: Seq<char>) -> Option<(int, int)> {
    spec_find_from(dirs, name, 0)
}

/// The paths of the search locations, in order.
pub open spec fn dir_paths(dirs: Seq<DirV>) -> Seq<Seq<char>> {
    dirs.map_values(|d: DirV| d.path)
}

/// The error a failed resolution reports: the attempted name together with
/// the full search list.
pub open spec fn spec_find_err(name: Seq<char>, dirs: Seq<DirV>) -> ErrorV {
    ErrorV {
        kind: ErrorKind::NotFound,
        detail: name,
        searched: dir_paths(dirs),
        chain: Seq::empty(),
    }
}

/// Resolves `name` against the search locations in declared order and
/// returns the indices of the first match, or the resolution error carrying
/// the attempted name and the whole search list.
pub fn find_component(name: &String, dirs: &Vec<Dir>) -> (r: Result<(usize, usize), Error>)
    ensures
        match r {
            Ok(t) => spec_find(dirs.deep_view(), name@) == Some((t.0 as int, t.1 as int))
                && t.0 < dirs@.len() && t.1 < dirs@[t.0 as int].files@.len(),
            Err(e) => spec_find(dirs.deep_view(), name@) is None && e@ == spec_find_err(
                name@,
                dirs.deep_view(),
            ),
        },
{
    let ghost dv = dirs.deep_view();
    let mut k: usize = 0;
    while k < dirs.len()
        invariant
            dv == dirs.deep_view(),
            0 <= k <= dv.len(),
            dv.len() == dirs@.len(),
            spec_find(dv, name@) == spec_find_from(dv, name@, k as int),
        decreases dv.len() - k,
    {
        let d = &dirs[k];
        proof {
            assert(dv[k as int] == d.deep_view());
        }
        let mut f: usize = 0;
        while f < d.files.len()
            invariant
                dv == dirs.deep_view(),
                0 <= k < dv.len(),
                dv.len() == dirs@.len(),
                dv[k as int] == d.deep_view(),
                spec_find(dv, name@) == spec_find_from(dv, name@, k as int),
                0 <= f <= d.files@.len(),
                d.deep_view().files.len() == d.files@.len(),
                spec_file_index(d.deep_view().files, name@, 0) == spec_file_index(
                    d.deep_view().files,
                    name@,
                    f as int,
                ),
            decreases d.files@.len() - f,
        {
            proof {
                assert(d.deep_view().files[f as int] == d.files[f as int].deep_view());
            }
            if str_eq(d.files[f].name.as_str(), name.as_str()) {
                proof {
                    assert(spec_file_index(d.deep_view().files, name@, f as int) == Some(
                        f as int,
                    ));
                    assert(spec_find_from(dv, name@, k as int) == Some((k as int, f as int)));
                }
                return Ok((k, f));
            }
            f += 1;
        }
        k += 1;
    }
    let mut searched: Vec<String> = Vec::new();
    let mut k2: usize = 0;
    while k2 < dirs.len()
        invariant
            dv == dirs.deep_view(),
            0 <= k2 <= dirs@.len(),
            dv.len() == dirs@.len(),
            searched.deep_view().len() == k2,
            forall|t: int| 0 <= t < k2 ==> searched.deep_view()[t] == dv[t].path,
        decreases dirs@.len() - k2,
    {
        proof {
            assert(dv[k2 as int] == dirs[k2 as int].deep_view());
        }
        let p = dirs[k2].path.clone();
        let ghost prev = searched.deep_view();
        searched.push(p);
        proof {
            assert forall|t: int| 0 <= t < k2 + 1 implies searched.deep_view()[t] == dv[t].path by {
                if t < k2 {
                    assert(searched.deep_view()[t] == prev[t]);
                } else {
                    assert(searched.deep_view()[t] == p@);
                }
            }
        }
        k2 += 1;
    }
    proof {
        assert(searched.deep_view() =~= dir_paths(dv));
    }
    Err(Error::not_found(name.clone(), searched))
}

/// The path a resolved component is read from: the winning location's path,
/// a separator, and the component name.
pub open spec fn spec_join(dir: Seq<char>, name: Seq<char>) -> Seq<char> {
    dir + "/"@ + name
}

/// Joins a search location path and a component name.
pub fn join_path(dir: &String, name: &String) -> (r: String)
    ensures
        r@ == spec_join(dir@, name@),
{
    let mut out = dir.clone();
    out.append("/");
    out.append(name.as_str());
    out
}

/// Search order precedence: when an earlier-listed location holds the
/// wanted name, resolution succeeds and never settles on a later location —
/// with two same-named files in two locations, the earlier-listed one wins.
pub proof fn lemma_search_order(dirs: Seq<DirV>, name: Seq<char>, i: int)
    requires
        0 <= i < dirs.len(),
        spec_file_index(dirs[i].files, name, 0) is Some,
    ensures
        spec_find(dirs, name) is Some,
        spec_find(dirs, name).unwrap().0 <= i,
{
    lemma_find_from_bound(dirs, name, 0, i);
}

proof fn lemma_find_from_bound(dirs: Seq<DirV>, name: Seq<char>, k: int, i: int)
    requires
        0 <= k <= i < dirs.len(),
        spec_file_index(dirs[i].files, name, 0) is Some,
    ensures
        spec_find_from(dirs, name, k) is Some,
        spec_find_from(dirs, name, k).unwrap().0 <= i,
    decreases i - k,
{
    if spec_file_index(dirs[k].files, name, 0) is Some {
    } else {
        lemma_find_from_bound(dirs, name, k + 1, i);
    }
}

} // verus!
