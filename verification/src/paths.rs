//! Calls into `std::path` on paths held as strings. How a path splits into
//! components depends on the platform, so what these calls answer is not
//! fixed here beyond what holds on every platform.

use vstd::prelude::*;
use crate::args::opt_view;

verus! {

/// `p` is a path in the plain form that every platform reads alike: not empty,
/// only `/` as separator, no `\\` and no `:` (so no Windows prefix), no empty
/// component (no `//`), no trailing `/` except for the root alone, and no `.`
/// component. Such a path is an optional root followed by its `/`-separated
/// components, and no two such strings have the same components.
pub open spec fn normal_path(p: Seq<char>) -> bool {
    &&& p.len() > 0
    &&& !p.contains(':')
    &&& !p.contains('\\')
    &&& forall|i: int| 0 <= i < p.len() - 1 && (#[trigger] p[i]) == '/' ==> p[i + 1] != '/'
    &&& (p.len() > 1 ==> p[p.len() - 1] != '/')
    &&& forall|i: int|
        0 <= i < p.len() && (#[trigger] p[i]) == '.' ==> !((i == 0 || p[i - 1] == '/') && (i
            == p.len() - 1 || p[i + 1] == '/'))
}

/// `p` is the directory `d`, a `/`, and the final component `n`.
pub open spec fn dir_and_name(p: Seq<char>, d: Seq<char>, n: Seq<char>) -> bool {
    p == d + seq!['/'] + n && d.len() > 0 && n.len() > 0 && !n.contains('/')
}

/// `n` is a single plain name: not empty, no separator, no `:`, and not `.`.
pub open spec fn plain_name(n: Seq<char>) -> bool {
    n.len() > 0 && single_component(n) && n != seq!['.']
}

/// The manifest path `p` lies in the directory `d` under the name `n`, in one of
/// the forms that every platform reads alike: a plain-form `d/n`; `/n` at the
/// root, whose directory is `/`; or a single component `n`, whose directory is
/// the empty path.
pub open spec fn manifest_dir(p: Seq<char>, d: Seq<char>, n: Seq<char>) -> bool {
    ||| normal_path(p) && dir_and_name(p, d, n)
    ||| p == seq!['/'] + n && plain_name(n) && d == seq!['/']
    ||| single_component(p) && p.len() > 0 && n == p && d == Seq::<char>::empty()
}

/// The root `/` alone is a path in plain form.
pub proof fn lemma_root_is_normal()
    ensures
        normal_path(seq!['/']),
{
    let r = seq!['/'];
    assert(r[0] == '/');
    if r.contains(':') {
        let i = choose|i: int| 0 <= i < r.len() && r[i] == ':';
        assert(r[i] == '/');
    }
    if r.contains('\\') {
        let i = choose|i: int| 0 <= i < r.len() && r[i] == '\\';
        assert(r[i] == '/');
    }
}

/// `p` can be read as relative on every platform: it holds no `:` (so no
/// Windows prefix) and does not start with a separator (so no root).
pub open spec fn plainly_relative(p: Seq<char>) -> bool {
    !p.contains(':') && (p.len() == 0 || (p[0] != '/' && p[0] != '\\'))
}

/// The directory of a path `d/n` in plain form is again in plain form.
pub proof fn lemma_dir_is_normal(p: Seq<char>, d: Seq<char>, n: Seq<char>)
    requires
        normal_path(p),
        dir_and_name(p, d, n),
    ensures
        normal_path(d),
{
    assert forall|i: int| 0 <= i < d.len() implies d[i] == p[i] by {}
    assert(p[d.len() as int] == '/');
    if d.contains(':') {
        let i = choose|i: int| 0 <= i < d.len() && d[i] == ':';
        assert(p[i] == ':');
    }
    if d.contains('\\') {
        let i = choose|i: int| 0 <= i < d.len() && d[i] == '\\';
        assert(p[i] == '\\');
    }
    assert forall|i: int| 0 <= i < d.len() - 1 && (#[trigger] d[i]) == '/' implies d[i + 1] != '/' by {
        assert(p[i] == '/');
    }
    if d.len() > 1 {
        assert(p[d.len() - 1] == d[d.len() - 1]);
    }
    assert forall|i: int|
        0 <= i < d.len() && (#[trigger] d[i]) == '.' implies !((i == 0 || d[i - 1] == '/') && (i
        == d.len() - 1 || d[i + 1] == '/')) by {
        assert(p[i] == '.');
    }
}

/// `p` holds no path separator: neither `/` nor `\\`. On every platform such a
/// path has no root, so it is relative.
pub open spec fn no_separator(p: Seq<char>) -> bool {
    !p.contains('/') && !p.contains('\\')
}

/// `p` holds no separator and no `:`: on every platform such a path has no
/// prefix and no root, and is a single component (or none, when empty).
pub open spec fn single_component(p: Seq<char>) -> bool {
    no_separator(p) && !p.contains(':')
}

/// Compares `Path::new(a)` with `Path::new(b)` (`PartialEq` for `std::path::Path`,
/// which compares components). Claimed: a path equals itself, as `Path`'s `Eq`
/// implementation promises; and two paths that are each at most a single
/// component, with no separator and no `:` (so no root and no Windows prefix),
/// are equal exactly when their strings are; and so are two paths in plain form
/// (`normal_path`), whose components (root, then the `/`-separated names, with
/// nothing normalised away) determine their strings. The empty path has no
/// component, while a path in plain form has at least one, so they differ. How other strings compare
/// depends on the platform's separators, prefixes and normalisation, and is left open.
#[verifier::external_body]
pub(crate) fn same_path(a: &str, b: &str) -> (r: bool)
    ensures
        a@ == b@ ==> r,
        single_component(a@) && single_component(b@) ==> (r == (a@ == b@)),
        normal_path(a@) && normal_path(b@) ==> (r == (a@ == b@)),
        a@.len() == 0 && normal_path(b@) ==> !r,
        normal_path(a@) && b@.len() == 0 ==> !r,
{
    std::path::Path::new(a) == std::path::Path::new(b)
}

/// Calls `Path::parent` on `Path::new(p)` and turns the parent back into a
/// `String`. Claimed: the empty path has no parent, as the documentation of
/// `Path::parent` says; and a manifest path of a form in `manifest_dir` has the
/// parent `d`: a plain-form `d/n` has `d`, `/n` has `/`, and a single component
/// has the empty path (the path without its final component, as the
/// documentation says and shows for `/foo/bar.txt` and `foo/bar`; `parent`
/// hands it back as the leading part of the same string). For other paths the
/// answer is left open.
#[verifier::external_body]
pub(crate) fn path_parent(p: &str) -> (r: Option<String>)
    ensures
        p@.len() == 0 ==> r is None,
        forall|d: Seq<char>, n: Seq<char>|
            #[trigger] manifest_dir(p@, d, n) ==> opt_view(r) == Some(d),
{
    match std::path::Path::new(p).parent() {
        Some(dir) => Some(dir.to_string_lossy().into_owned()),
        None => None,
    }
}

/// Calls `Path::is_relative` on `Path::new(p)`. Claimed: a path without any
/// separator is relative, and so is a path without `:` that does not start with
/// a separator: the documentation of `is_absolute` says that an absolute path
/// starts with the root (on Windows, after a prefix, and every Windows prefix
/// starts with a separator or holds a `:`). Which other paths are relative
/// depends on the platform and is left open.
#[verifier::external_body]
pub(crate) fn path_is_relative(p: &str) -> (r: bool)
    ensures
        no_separator(p@) ==> r,
        plainly_relative(p@) ==> r,
{
    std::path::Path::new(p).is_relative()
}

} // verus!
