//! The part of cargo's metadata that `cargo fdep` reads, as plain values, and
//! the package selections made from it.

use vstd::prelude::*;
use crate::args::opt_view;
use crate::error::FdepError;
use crate::paths::{
    lemma_dir_is_normal, lemma_root_is_normal, manifest_dir, normal_path, path_parent, same_path,
};
use crate::text::str_equals;

verus! {

/// A dependency of a package: its name, and where it comes from (`None` for a
/// dependency on a package of the same workspace, given by path).
#[derive(Clone, Debug)]
pub struct DependencyModel {
    pub name: String,
    pub source: Option<String>,
}

/// A build target of a package: its name and its cargo kind names.
#[derive(Clone, Debug)]
pub struct TargetModel {
    pub name: String,
    pub kind: Vec<String>,
}

/// A package of the metadata.
#[derive(Clone, Debug)]
pub struct PackageModel {
    pub id: String,
    pub name: String,
    pub manifest_path: String,
    /// The number of features the package declares.
    pub feature_count: usize,
    pub targets: Vec<TargetModel>,
    pub dependencies: Vec<DependencyModel>,
}

/// The metadata of a workspace: its packages, the ids of its members, and the
/// ids of its default members (absent where cargo is too old to report them).
#[derive(Clone, Debug)]
pub struct MetadataModel {
    pub packages: Vec<PackageModel>,
    pub workspace_members: Vec<String>,
    pub workspace_default_members: Option<Vec<String>>,
}

/// Some string of `s` has the characters `x`.
pub open spec fn seq_has(s: Seq<String>, x: Seq<char>) -> bool {
    exists|j: int| 0 <= j < s.len() && (#[trigger] s[j])@ == x
}

/// Package `i` of `m` is a default member of the workspace.
pub open spec fn is_default_member(m: MetadataModel, i: int) -> bool {
    seq_has(m.workspace_default_members.unwrap()@, m.packages@[i].id@)
}

/// The positions of the default members among the first `n` packages, in order.
pub open spec fn default_positions_upto(m: MetadataModel, n: int) -> Seq<usize>
    decreases n,
{
    if n <= 0 {
        Seq::empty()
    } else if is_default_member(m, n - 1) {
        default_positions_upto(m, n - 1).push((n - 1) as usize)
    } else {
        default_positions_upto(m, n - 1)
    }
}

/// The positions of the workspace's default packages, in the order of `m.packages`.
pub open spec fn spec_default_packages(m: MetadataModel) -> Seq<usize> {
    default_positions_upto(m, m.packages@.len() as int)
}

/// Some package at a position of `d` depends on a package named `name` of the
/// same workspace (a dependency with no source).
pub open spec fn is_local_dependency(m: MetadataModel, d: Seq<usize>, name: Seq<char>) -> bool {
    exists|t: int, k: int|
        0 <= t < d.len() && 0 <= k < m.packages@[d[t] as int].dependencies@.len() && {
            let dep = #[trigger] m.packages@[d[t] as int].dependencies@[k];
            dep.source is None && dep.name@ == name
        }
}

/// Of the first `t` positions of `d`, those whose package no package of `d`
/// depends on locally, in order.
pub open spec fn independent_upto(m: MetadataModel, d: Seq<usize>, t: int) -> Seq<usize>
    decreases t,
{
    if t <= 0 {
        Seq::empty()
    } else if !is_local_dependency(m, d, m.packages@[d[t - 1] as int].name@) {
        independent_upto(m, d, t - 1).push(d[t - 1])
    } else {
        independent_upto(m, d, t - 1)
    }
}

/// The positions of the default packages that no default package depends on
/// locally: the roots from which the workspace is analysed.
pub open spec fn spec_independent_packages(m: MetadataModel) -> Seq<usize> {
    let d = spec_default_packages(m);
    independent_upto(m, d, d.len() as int)
}

/// Whether some string of `v` has the characters of `x`.
pub fn contains_str(v: &Vec<String>, x: &str) -> (r: bool)
    ensures
        r == seq_has(v@, x@),
{
    let n = v.len();
    let mut i: usize = 0;
    while i < n
        invariant
            n == v.len(),
            i <= n,
            forall|j: int| 0 <= j < i ==> (#[trigger] v@[j])@ != x@,
        decreases n - i,
    {
        if str_equals(v[i].as_str(), x) {
            return true;
        }
        i = i + 1;
    }
    false
}

proof fn lemma_default_positions(m: MetadataModel, n: int)
    requires
        0 <= n <= m.packages@.len(),
        m.packages@.len() <= usize::MAX,
    ensures
        forall|p: int|
            0 <= p < default_positions_upto(m, n).len() ==> (#[trigger] default_positions_upto(
                m,
                n,
            )[p]) < n,
        forall|p: int, q: int|
            0 <= p < q < default_positions_upto(m, n).len() ==> (#[trigger] default_positions_upto(
                m,
                n,
            )[p]) < (#[trigger] default_positions_upto(m, n)[q]),
        forall|p: int|
            0 <= p < default_positions_upto(m, n).len() ==> is_default_member(
                m,
                #[trigger] default_positions_upto(m, n)[p] as int,
            ),
        forall|i: int|
            0 <= i < n && is_default_member(m, i) ==> #[trigger] default_positions_upto(
                m,
                n,
            ).contains(i as usize),
    decreases n,
{
    if n > 0 {
        lemma_default_positions(m, n - 1);
        let prev = default_positions_upto(m, n - 1);
        let cur = default_positions_upto(m, n);
        assert forall|p: int| 0 <= p < prev.len() implies cur[p] == prev[p] by {}
        assert forall|p: int| 0 <= p < cur.len() implies is_default_member(m, #[trigger] cur[p] as int) by {
            if p < prev.len() {
                assert(cur[p] == prev[p]);
            }
        }
        assert forall|p: int, q: int| 0 <= p < q < cur.len() implies (#[trigger] cur[p]) < (#[trigger] cur[q]) by {
            if q < prev.len() {
                assert(cur[p] == prev[p] && cur[q] == prev[q]);
            } else {
                assert(cur[p] == prev[p]);
            }
        }
        assert forall|i: int|
            0 <= i < n && is_default_member(m, i) implies #[trigger] cur.contains(i as usize) by {
            if i < n - 1 {
                assert(prev.contains(i as usize));
                let k = choose|k: int| 0 <= k < prev.len() && prev[k] == i as usize;
                assert(cur[k] == i as usize);
            } else {
                assert(cur[prev.len() as int] == i as usize);
            }
        }
    }
}

/// The positions of the workspace's default packages, in the order of the
/// packages. Cargo reports default members from version 1.71 on; before, the
/// list is absent, and that input is left out.
pub fn workspace_default_packages(metadata: &MetadataModel) -> (r: Vec<usize>)
    requires
        metadata.workspace_default_members is Some,
    ensures
        r@ == spec_default_packages(*metadata),
{
    let members = match &metadata.workspace_default_members {
        Some(members) => members,
        None => { return Vec::new(); },
    };
    let n = metadata.packages.len();
    let mut r: Vec<usize> = Vec::new();
    let mut i: usize = 0;
    while i < n
        invariant
            n == metadata.packages@.len(),
            metadata.workspace_default_members == Some(*members),
            i <= n,
            r@ == default_positions_upto(*metadata, i as int),
        decreases n - i,
    {
        if contains_str(members, metadata.packages[i].id.as_str()) {
            r.push(i);
        }
        i = i + 1;
    }
    r
}

/// The positions of the default packages that no default package depends on
/// through a path dependency, in the order of the packages.
pub fn get_independant_packages(metadata: &MetadataModel) -> (r: Vec<usize>)
    requires
        metadata.workspace_default_members is Some,
    ensures
        r@ == spec_independent_packages(*metadata),
{
    let defaults = workspace_default_packages(metadata);
    let ghost m = *metadata;
    let ghost d = defaults@;
    proof {
        assert(metadata.packages.len() == m.packages@.len());
        lemma_default_positions(m, m.packages@.len() as int);
    }
    // Names of the packages that default packages depend on within the workspace.
    let mut dep_names: Vec<String> = Vec::new();
    let nd = defaults.len();
    let mut t: usize = 0;
    while t < nd
        invariant
            m == *metadata,
            d == defaults@,
            d == spec_default_packages(m),
            nd == d.len(),
            t <= nd,
            forall|p: int| 0 <= p < d.len() ==> (#[trigger] d[p]) < m.packages@.len(),
            forall|x: Seq<char>|
                #[trigger] seq_has(dep_names@, x) <==> exists|t2: int, k: int|
                    0 <= t2 < t && 0 <= k < m.packages@[d[t2] as int].dependencies@.len() && {
                        let dep = #[trigger] m.packages@[d[t2] as int].dependencies@[k];
                        dep.source is None && dep.name@ == x
                    },
        decreases nd - t,
    {
        let pkg = &metadata.packages[defaults[t]];
        let nk = pkg.dependencies.len();
        let ghost before = dep_names@;
        let mut k: usize = 0;
        while k < nk
            invariant
                m == *metadata,
                d == defaults@,
                nd == d.len(),
                t < nd,
                d[t as int] < m.packages@.len(),
                *pkg == m.packages@[d[t as int] as int],
                nk == pkg.dependencies@.len(),
                k <= nk,
                forall|x: Seq<char>|
                    #[trigger] seq_has(dep_names@, x) <==> (seq_has(before, x) || exists|k2: int|
                        0 <= k2 < k && {
                            let dep = #[trigger] pkg.dependencies@[k2];
                            dep.source is None && dep.name@ == x
                        }),
            decreases nk - k,
        {
            let dep = &pkg.dependencies[k];
            if dep.source.is_none() {
                let ghost prev = dep_names@;
                dep_names.push(dep.name.clone());
                assert forall|x: Seq<char>| #[trigger]
                    seq_has(dep_names@, x) <==> (seq_has(before, x) || exists|k2: int|
                        0 <= k2 < k + 1 && {
                            let dep = #[trigger] pkg.dependencies@[k2];
                            dep.source is None && dep.name@ == x
                        }) by {
                    if seq_has(dep_names@, x) {
                        let j = choose|j: int| 0 <= j < dep_names@.len() && (#[trigger] dep_names@[j])@ == x;
                        if j < prev.len() {
                            assert(prev[j] == dep_names@[j]);
                            assert(seq_has(prev, x));
                        } else {
                            assert(pkg.dependencies@[k as int].name@ == x);
                        }
                    }
                    if seq_has(before, x) || exists|k2: int|
                        0 <= k2 < k + 1 && {
                            let dep = #[trigger] pkg.dependencies@[k2];
                            dep.source is None && dep.name@ == x
                        } {
                        if seq_has(prev, x) {
                            let j = choose|j: int| 0 <= j < prev.len() && (#[trigger] prev[j])@ == x;
                            assert(dep_names@[j] == prev[j]);
                        } else {
                            assert(dep_names@[prev.len() as int]@ == x);
                        }
                    }
                }
            }
            k = k + 1;
        }
        t = t + 1;
    }
    assert forall|x: Seq<char>| #[trigger] seq_has(dep_names@, x) <==> is_local_dependency(m, d, x) by {
    }
    // Keep the default packages whose name no default package depends on.
    let mut r: Vec<usize> = Vec::new();
    let mut t: usize = 0;
    while t < nd
        invariant
            m == *metadata,
            d == defaults@,
            d == spec_default_packages(m),
            nd == d.len(),
            t <= nd,
            forall|p: int| 0 <= p < d.len() ==> (#[trigger] d[p]) < m.packages@.len(),
            forall|x: Seq<char>| #[trigger] seq_has(dep_names@, x) <==> is_local_dependency(m, d, x),
            r@ == independent_upto(m, d, t as int),
        decreases nd - t,
    {
        let i = defaults[t];
        if !contains_str(&dep_names, metadata.packages[i].name.as_str()) {
            r.push(i);
        }
        t = t + 1;
    }
    r
}

/// The packages that `cargo fdep` checks, as positions in `metadata.packages`:
/// the package that was found for the manifest path or the current directory,
/// or else every default package that no default package depends on by path.
pub fn packages_to_process(metadata: &MetadataModel, found: Option<usize>) -> (r: Vec<usize>)
    requires
        found matches Some(i) ==> i < metadata.packages@.len(),
        found is None ==> metadata.workspace_default_members is Some,
    ensures
        r@ == match found {
            Some(i) => seq![i],
            None => spec_independent_packages(*metadata),
        },
{
    match found {
        Some(i) => {
            let mut r: Vec<usize> = Vec::new();
            r.push(i);
            assert(r@ =~= seq![i]);
            r
        },
        None => get_independant_packages(metadata),
    }
}

/// Takes the selected package out of the metadata and hands it back: the
/// analysis that follows sees the remaining packages only. Without a selected
/// package the metadata stays as it is.
pub fn take_selected_package(metadata: &mut MetadataModel, found: Option<usize>) -> (r: Option<
    PackageModel,
>)
    requires
        found matches Some(i) ==> i < old(metadata).packages@.len(),
    ensures
        final(metadata).workspace_members == old(metadata).workspace_members,
        final(metadata).workspace_default_members == old(metadata).workspace_default_members,
        final(metadata).packages@ == match found {
            Some(i) => old(metadata).packages@.remove(i as int),
            None => old(metadata).packages@,
        },
        r == match found {
            Some(i) => Some(old(metadata).packages@[i as int]),
            None => None::<PackageModel>,
        },
{
    match found {
        Some(i) => Some(metadata.packages.remove(i)),
        None => None,
    }
}

/// The position of the first string of `s` from `i` on that equals `target`.
pub open spec fn spec_first_equal(s: Seq<Seq<char>>, target: Seq<char>, i: nat) -> Option<int>
    decreases s.len() - i,
{
    if i >= s.len() {
        None
    } else if s[i as int] == target {
        Some(i as int)
    } else {
        spec_first_equal(s, target, i + 1)
    }
}

/// What the test of one package against the requested location may answer,
/// whatever the platform's path comparison does. With a manifest path given, the
/// package's manifest must be that path (the same string always is); without
/// one, the manifest's directory must be the current directory, which must be
/// known, and the manifest must have a directory (the empty path has none).
/// Where the paths involved are in plain form (`normal_path`), the answer is
/// fixed: the manifest matches the given path exactly when the strings are
/// equal, and a manifest in directory `d` (`manifest_dir`: a plain-form `d/n`,
/// `/n` at the root, or a single component in the empty directory) lies in the
/// current directory exactly when `d` is that directory.
pub open spec fn match_outcome_allowed(
    o: Result<bool, FdepError>,
    package_manifest: Seq<char>,
    manifest_path: Option<Seq<char>>,
    current_dir: Option<Seq<char>>,
) -> bool {
    match manifest_path {
        Some(m) => {
            &&& o is Ok
            &&& (m == package_manifest ==> o == Ok::<bool, FdepError>(true))
            &&& (normal_path(m) && normal_path(package_manifest) ==> o == Ok::<bool, FdepError>(
                m == package_manifest,
            ))
        },
        None => match current_dir {
            None => o == Err::<bool, FdepError>(FdepError::CurrentDirUnavailable),
            Some(dir) => {
                &&& (o matches Err(e) ==> e == FdepError::ManifestWithoutParent)
                &&& forall|d: Seq<char>, n: Seq<char>|
                    #[trigger] manifest_dir(package_manifest, d, n) && normal_path(dir) ==> o
                        == Ok::<bool, FdepError>(d == dir)
                &&& (package_manifest.len() == 0 ==> o == Err::<bool, FdepError>(
                    FdepError::ManifestWithoutParent,
                ))
            },
        },
    }
}

/// Scanning `outcomes` from position `i`: the first failure, or the position of
/// the first match, or no match.
pub open spec fn spec_first_match(outcomes: Seq<Result<bool, FdepError>>, i: nat) -> Result<
    Option<int>,
    FdepError,
>
    decreases outcomes.len() - i,
{
    if i >= outcomes.len() {
        Ok(None)
    } else {
        match outcomes[i as int] {
            Err(e) => Err(e),
            Ok(true) => Ok(Some(i as int)),
            Ok(false) => spec_first_match(outcomes, i + 1),
        }
    }
}

/// A selection result with its position as an integer.
pub open spec fn selection_view(r: Result<Option<usize>, FdepError>) -> Result<
    Option<int>,
    FdepError,
> {
    match r {
        Ok(Some(i)) => Ok(Some(i as int)),
        Ok(None) => Ok(None),
        Err(e) => Err(e),
    }
}

/// Whether the package whose manifest is at `package_manifest` is the one to
/// analyse: the manifest is the given `manifest_path`, or, when none is given,
/// it lies in the current directory.
pub fn package_matches(
    package_manifest: &str,
    manifest_path: &Option<String>,
    current_dir: &Option<String>,
) -> (r: Result<bool, FdepError>)
    ensures
        match_outcome_allowed(r, package_manifest@, opt_view(*manifest_path), opt_view(*current_dir)),
{
    match manifest_path {
        Some(m) => Ok(same_path(package_manifest, m.as_str())),
        None => {
            let dir = match current_dir {
                Some(d) => d,
                None => {
                    return Err(FdepError::CurrentDirUnavailable);
                },
            };
            match path_parent(package_manifest) {
                Some(parent) => {
                    let same = same_path(parent.as_str(), dir.as_str());
                    proof {
                        assert forall|d: Seq<char>, n: Seq<char>|
                            #[trigger] manifest_dir(package_manifest@, d, n) && normal_path(
                                dir@,
                            ) implies same == (d == dir@) by {
                            if normal_path(package_manifest@) && crate::paths::dir_and_name(
                                package_manifest@,
                                d,
                                n,
                            ) {
                                lemma_dir_is_normal(package_manifest@, d, n);
                            } else if d == seq!['/'] {
                                lemma_root_is_normal();
                            }
                        }
                    }
                    Ok(same)
                },
                None => {
                    proof {
                        assert forall|d: Seq<char>, n: Seq<char>|
                            #[trigger] manifest_dir(package_manifest@, d, n) && normal_path(
                                dir@,
                            ) implies false by {}
                    }
                    Err(FdepError::ManifestWithoutParent)
                },
            }
        },
    }
}

/// The first failure among `outcomes`, or the position of the first match.
pub fn select_first_match(outcomes: &Vec<Result<bool, FdepError>>) -> (r: Result<
    Option<usize>,
    FdepError,
>)
    ensures
        selection_view(r) == spec_first_match(outcomes@, 0),
{
    let n = outcomes.len();
    let mut i: usize = 0;
    while i < n
        invariant
            n == outcomes@.len(),
            i <= n,
            spec_first_match(outcomes@, 0) == spec_first_match(outcomes@, i as nat),
        decreases n - i,
    {
        match outcomes[i] {
            Err(e) => {
                return Err(e);
            },
            Ok(true) => {
                return Ok(Some(i));
            },
            Ok(false) => {},
        }
        i = i + 1;
    }
    Ok(None)
}

/// The position of the package to analyse: the first package whose manifest is
/// `manifest_path` when one is given, else the first whose manifest lies in
/// `current_dir`. Fails where a needed location is unavailable.
pub fn find_package_index(
    metadata: &MetadataModel,
    manifest_path: &Option<String>,
    current_dir: &Option<String>,
) -> (r: Result<Option<usize>, FdepError>)
    ensures
        exists|outcomes: Seq<Result<bool, FdepError>>|
            {
                &&& outcomes.len() == metadata.packages@.len()
                &&& forall|i: int|
                    0 <= i < outcomes.len() ==> match_outcome_allowed(
                        #[trigger] outcomes[i],
                        metadata.packages@[i].manifest_path@,
                        opt_view(*manifest_path),
                        opt_view(*current_dir),
                    )
                &&& selection_view(r) == spec_first_match(outcomes, 0)
            },
{
    let n = metadata.packages.len();
    let mut outcomes: Vec<Result<bool, FdepError>> = Vec::new();
    let mut i: usize = 0;
    while i < n
        invariant
            n == metadata.packages@.len(),
            i <= n,
            outcomes@.len() == i,
            forall|j: int|
                0 <= j < i ==> match_outcome_allowed(
                    #[trigger] outcomes@[j],
                    metadata.packages@[j].manifest_path@,
                    opt_view(*manifest_path),
                    opt_view(*current_dir),
                ),
        decreases n - i,
    {
        let o = package_matches(metadata.packages[i].manifest_path.as_str(), manifest_path, current_dir);
        outcomes.push(o);
        i = i + 1;
    }
    select_first_match(&outcomes)
}

} // verus!
