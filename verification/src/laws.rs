//! Properties that hold across the library's operations.

use vstd::prelude::*;
use crate::analysis::{analysis_matches, spec_optimal_command, spec_suggestions, Analysis};
use crate::args::{
    flag_candidates, flag_candidates_from, flag_region, flag_value_from, gives_value,
    lemma_candidates_shift, lemma_candidates_skip, lemma_region_end,
    lemma_region_without_separator, lemma_value_absent, lemma_value_found, region_end_from,
    spec_first_rs_arg, spec_flag_value, spec_has_flag,
};
use crate::error::FdepError;
use crate::metadata::{
    is_default_member, is_local_dependency, independent_upto, match_outcome_allowed, spec_first_equal,
    spec_default_packages, spec_first_match, spec_independent_packages, MetadataModel,
    default_positions_upto,
};
use crate::paths::{manifest_dir, normal_path};
use crate::plan::{
    cargo_forwarded, fdep_forwarded, spec_crate_type_lib, spec_needs_default_target, step_matches,
    user_args, TargetStep,
};
use crate::metadata::TargetModel;
use crate::target::{is_stable_kind_order, spec_is_lib_str, spec_target_kind, TargetKind};

verus! {

proof fn lemma_region_end_of_prefix(
    before: Seq<Seq<char>>,
    after: Seq<Seq<char>>,
    i: nat,
)
    requires
        i <= before.len(),
        !before.contains("--"@),
    ensures
        region_end_from(before + seq!["--"@] + after, i) == before.len(),
        region_end_from(before, i) == before.len(),
    decreases before.len() - i,
{
    let args = before + seq!["--"@] + after;
    if i < before.len() {
        assert(args[i as int] == before[i as int]);
        if before[i as int] == "--"@ {
            assert(before.contains("--"@));
        }
        lemma_region_end_of_prefix(before, after, i + 1);
    } else {
        assert(args[i as int] == "--"@);
    }
}

/// Everything after the first `--` is invisible to the flag scans: appending
/// `--` and any further arguments to arguments that hold no `--` changes neither
/// whether a flag is present, nor its value, nor the values examined for it,
/// nor the first `.rs` argument.
pub proof fn law_flags_stop_at_separator(
    before: Seq<Seq<char>>,
    after: Seq<Seq<char>>,
    name: Seq<char>,
)
    requires
        !before.contains("--"@),
    ensures
        spec_has_flag(before + seq!["--"@] + after, name) == spec_has_flag(before, name),
        spec_flag_value(before + seq!["--"@] + after, name) == spec_flag_value(before, name),
        flag_candidates(before + seq!["--"@] + after, name) == flag_candidates(before, name),
        spec_first_rs_arg(before + seq!["--"@] + after) == spec_first_rs_arg(before),
{
    let args = before + seq!["--"@] + after;
    lemma_region_end_of_prefix(before, after, 0);
    assert(flag_region(args) =~= before);
    assert(flag_region(before) =~= before);
}

/// The arguments of `cargo fdep` are split at their first `--`: cargo gets
/// those before it and fdep those after it, so that with the `--` between them
/// they are the user's arguments again; without a `--`, cargo gets them all.
pub proof fn law_user_args_are_split_at_separator(args: Seq<Seq<char>>)
    ensures
        user_args(args).contains("--"@) ==> cargo_forwarded(args) + seq!["--"@] + fdep_forwarded(
            args,
        ) == user_args(args),
        !user_args(args).contains("--"@) ==> cargo_forwarded(args) == user_args(args)
            && fdep_forwarded(args).len() == 0,
{
    let u = user_args(args);
    lemma_region_end(u, 0);
    let e = region_end_from(u, 0);
    if e < u.len() {
        assert(u.contains("--"@));
        assert(cargo_forwarded(args) + seq!["--"@] + fdep_forwarded(args) =~= u);
    } else {
        if u.contains("--"@) {
            let j = choose|j: int| 0 <= j < u.len() && u[j] == "--"@;
            assert(u[j] != "--"@);
        }
        assert(cargo_forwarded(args) =~= u);
    }
}

/// In the checking order, every library comes before every target of another
/// kind, and every binary before every target of unknown kind.
pub proof fn law_libraries_are_checked_first(kinds: Seq<TargetKind>, order: Seq<usize>)
    requires
        is_stable_kind_order(kinds, order),
    ensures
        forall|p: int, q: int|
            0 <= p < q < order.len() && kinds[order[q] as int] == TargetKind::Library
                ==> kinds[order[p] as int] == TargetKind::Library,
        forall|p: int, q: int|
            0 <= p < q < order.len() && kinds[order[q] as int] == TargetKind::Bin
                ==> kinds[order[p] as int] != TargetKind::Unknown,
{
}

proof fn lemma_independent_upto(m: MetadataModel, d: Seq<usize>, t: int)
    requires
        0 <= t <= d.len(),
    ensures
        forall|x: usize|
            #[trigger] independent_upto(m, d, t).contains(x) <==> exists|u: int|
                0 <= u < t && d[u] == x && !is_local_dependency(
                    m,
                    d,
                    m.packages@[d[u] as int].name@,
                ),
        forall|p: int|
            0 <= p < independent_upto(m, d, t).len() ==> exists|u: int|
                0 <= u < t && d[u] == #[trigger] independent_upto(m, d, t)[p],
    decreases t,
{
    if t > 0 {
        lemma_independent_upto(m, d, t - 1);
        let prev = independent_upto(m, d, t - 1);
        let cur = independent_upto(m, d, t);
        assert forall|x: usize| #[trigger] cur.contains(x) <==> exists|u: int|
            0 <= u < t && d[u] == x && !is_local_dependency(m, d, m.packages@[d[u] as int].name@) by {
            if cur.contains(x) {
                let k = choose|k: int| 0 <= k < cur.len() && cur[k] == x;
                if k < prev.len() {
                    assert(prev[k] == x);
                    assert(prev.contains(x));
                } else {
                    assert(d[t - 1] == x);
                }
            }
            if exists|u: int|
                0 <= u < t && d[u] == x && !is_local_dependency(
                    m,
                    d,
                    m.packages@[d[u] as int].name@,
                ) {
                let u = choose|u: int|
                    0 <= u < t && d[u] == x && !is_local_dependency(
                        m,
                        d,
                        m.packages@[d[u] as int].name@,
                    );
                if u < t - 1 {
                    assert(prev.contains(x));
                    let k = choose|k: int| 0 <= k < prev.len() && prev[k] == x;
                    assert(cur[k] == x);
                } else {
                    assert(cur[prev.len() as int] == x);
                }
            }
        }
        assert forall|p: int| 0 <= p < cur.len() implies exists|u: int|
            0 <= u < t && d[u] == #[trigger] cur[p] by {
            if p < prev.len() {
                assert(cur[p] == prev[p]);
            } else {
                assert(cur[p] == d[t - 1]);
            }
        }
    }
}

proof fn lemma_default_membership(m: MetadataModel, n: int)
    requires
        0 <= n <= m.packages@.len(),
        m.packages@.len() <= usize::MAX,
    ensures
        forall|x: usize|
            #[trigger] default_positions_upto(m, n).contains(x) <==> (x < n && is_default_member(
                m,
                x as int,
            )),
    decreases n,
{
    if n > 0 {
        lemma_default_membership(m, n - 1);
        let prev = default_positions_upto(m, n - 1);
        let cur = default_positions_upto(m, n);
        assert forall|x: usize| #[trigger] cur.contains(x) <==> (x < n && is_default_member(
            m,
            x as int,
        )) by {
            if cur.contains(x) {
                let k = choose|k: int| 0 <= k < cur.len() && cur[k] == x;
                if k < prev.len() {
                    assert(prev[k] == x);
                    assert(prev.contains(x));
                }
            }
            if x < n && is_default_member(m, x as int) {
                if x < n - 1 {
                    assert(prev.contains(x));
                    let k = choose|k: int| 0 <= k < prev.len() && prev[k] == x;
                    assert(cur[k] == x);
                } else {
                    assert(cur[prev.len() as int] == x);
                }
            }
        }
    }
}

/// The packages from which the analysis starts are exactly the default members
/// of the workspace that no default member depends on through a path.
pub proof fn law_independent_packages_are_roots(m: MetadataModel)
    requires
        m.packages@.len() <= usize::MAX,
    ensures
        forall|i: usize|
            #[trigger] spec_independent_packages(m).contains(i) <==> (i < m.packages@.len()
                && is_default_member(m, i as int) && !is_local_dependency(
                m,
                spec_default_packages(m),
                m.packages@[i as int].name@,
            )),
{
    let d = spec_default_packages(m);
    lemma_independent_upto(m, d, d.len() as int);
    lemma_default_membership(m, m.packages@.len() as int);
    assert forall|i: usize| #[trigger] spec_independent_packages(m).contains(i) <==> (i
        < m.packages@.len() && is_default_member(m, i as int) && !is_local_dependency(
        m,
        d,
        m.packages@[i as int].name@,
    )) by {
        if spec_independent_packages(m).contains(i) {
            let u = choose|u: int|
                0 <= u < d.len() && d[u] == i && !is_local_dependency(
                    m,
                    d,
                    m.packages@[d[u] as int].name@,
                );
            assert(d.contains(i));
        }
        if i < m.packages@.len() && is_default_member(m, i as int) {
            assert(d.contains(i));
            let u = choose|u: int| 0 <= u < d.len() && d[u] == i;
            assert(d[u] == i);
        }
    }
}

/// The analysis suggests nothing exactly when all targets were asked for, all
/// features were asked for where there are features, and the whole workspace
/// where there is one.
pub proof fn law_no_suggestion_exactly_when_flags_are_optimal(
    has_features: bool,
    has_workspace: bool,
    has_tests: bool,
    used_all_features: bool,
    used_all_targets: bool,
    used_tests: bool,
    used_workspace: bool,
)
    ensures
        spec_suggestions(
            has_features,
            has_workspace,
            has_tests,
            used_all_features,
            used_all_targets,
            used_tests,
            used_workspace,
        ).len() == 0 <==> (used_all_targets && (has_features ==> used_all_features) && (
        has_workspace ==> used_workspace)),
{
}

/// The flags in the suggested command line, in the order they appear there.
pub open spec fn suggested_flags(
    has_features: bool,
    has_workspace: bool,
    used_all_features: bool,
    used_all_targets: bool,
    used_workspace: bool,
) -> Seq<Seq<char>> {
    (if has_workspace && !used_workspace {
        seq!["--workspace"@]
    } else {
        Seq::empty()
    }) + (if has_features && !used_all_features {
        seq!["--all-features"@]
    } else {
        Seq::empty()
    }) + (if !used_all_targets {
        seq!["--all-targets"@]
    } else {
        Seq::empty()
    })
}

/// Following the suggestion leaves nothing to suggest: the suggested command
/// line is `cargo fdep` followed by the suggested flags, each with a space
/// before it, and running again with those flags added to the arguments (on the
/// same workspace) yields no suggestion.
pub proof fn law_following_the_suggestion_leaves_nothing(
    has_features: bool,
    has_workspace: bool,
    has_tests: bool,
    args: Seq<Seq<char>>,
)
    ensures
        ({
            let uaf = args.contains("--all-features"@);
            let uat = args.contains("--all-targets"@);
            let uw = args.contains("--workspace"@);
            let flags = suggested_flags(has_features, has_workspace, uaf, uat, uw);
            let again = args + flags;
            &&& spec_optimal_command(has_features, has_workspace, uaf, uat, uw) == "cargo fdep"@
                + (if has_workspace && !uw {
                " --workspace"@
            } else {
                Seq::empty()
            }) + (if has_features && !uaf {
                " --all-features"@
            } else {
                Seq::empty()
            }) + (if !uat {
                " --all-targets"@
            } else {
                Seq::empty()
            })
            &&& spec_suggestions(
                has_features,
                has_workspace,
                has_tests,
                again.contains("--all-features"@),
                again.contains("--all-targets"@),
                again.contains("--tests"@),
                again.contains("--workspace"@),
            ).len() == 0
        }),
{
    let uaf = args.contains("--all-features"@);
    let uat = args.contains("--all-targets"@);
    let uw = args.contains("--workspace"@);
    let flags = suggested_flags(has_features, has_workspace, uaf, uat, uw);
    let again = args + flags;
    assert forall|x: Seq<char>| args.contains(x) || flags.contains(x) implies again.contains(x) by {
        if args.contains(x) {
            let j = choose|j: int| 0 <= j < args.len() && args[j] == x;
            assert(again[j] == x);
        } else {
            let j = choose|j: int| 0 <= j < flags.len() && flags[j] == x;
            assert(again[args.len() + j] == x);
        }
    }
    if !uat {
        let k = flags.len() - 1;
        assert(flags[k] == "--all-targets"@);
        assert(flags.contains("--all-targets"@));
    }
    if has_features && !uaf {
        let k = if has_workspace && !uw { 1int } else { 0int };
        assert(flags[k] == "--all-features"@);
        assert(flags.contains("--all-features"@));
    }
    if has_workspace && !uw {
        assert(flags[0] == "--workspace"@);
        assert(flags.contains("--workspace"@));
    }
}

/// With the manifest path and every package's manifest in plain form, the
/// package selected is the first one whose manifest is that path.
pub proof fn law_selection_by_manifest_path(
    outcomes: Seq<Result<bool, FdepError>>,
    manifests: Seq<Seq<char>>,
    manifest_path: Seq<char>,
    current_dir: Option<Seq<char>>,
)
    requires
        outcomes.len() == manifests.len(),
        normal_path(manifest_path),
        forall|i: int| 0 <= i < manifests.len() ==> normal_path(#[trigger] manifests[i]),
        forall|i: int|
            0 <= i < outcomes.len() ==> match_outcome_allowed(
                #[trigger] outcomes[i],
                manifests[i],
                Some(manifest_path),
                current_dir,
            ),
    ensures
        spec_first_match(outcomes, 0) == Ok::<Option<int>, FdepError>(
            spec_first_equal(manifests, manifest_path, 0),
        ),
{
    lemma_first_match_equal(outcomes, manifests, manifest_path, 0);
}

proof fn lemma_first_match_equal(
    outcomes: Seq<Result<bool, FdepError>>,
    keys: Seq<Seq<char>>,
    target: Seq<char>,
    i: nat,
)
    requires
        outcomes.len() == keys.len(),
        forall|j: int| 0 <= j < outcomes.len() ==> (#[trigger] outcomes[j]) == Ok::<bool, FdepError>(
            keys[j] == target,
        ),
    ensures
        spec_first_match(outcomes, i) == Ok::<Option<int>, FdepError>(
            spec_first_equal(keys, target, i),
        ),
    decreases outcomes.len() - i,
{
    if i < outcomes.len() {
        assert(outcomes[i as int] == Ok::<bool, FdepError>(keys[i as int] == target));
        lemma_first_match_equal(outcomes, keys, target, i + 1);
    }
}

/// With the current directory in plain form and every package's manifest in
/// one of the forms of `manifest_dir` (a plain-form `d/n`, `/n` at the root, or
/// a single component in the empty directory), with directory `dirs[i]`, the
/// package selected is the first one whose directory is the current directory.
pub proof fn law_selection_by_current_dir(
    outcomes: Seq<Result<bool, FdepError>>,
    manifests: Seq<Seq<char>>,
    dirs: Seq<Seq<char>>,
    names: Seq<Seq<char>>,
    current_dir: Seq<char>,
)
    requires
        outcomes.len() == manifests.len(),
        dirs.len() == manifests.len(),
        names.len() == manifests.len(),
        normal_path(current_dir),
        forall|i: int|
            0 <= i < manifests.len() ==> manifest_dir(#[trigger] manifests[i], dirs[i], names[i]),
        forall|i: int|
            0 <= i < outcomes.len() ==> match_outcome_allowed(
                #[trigger] outcomes[i],
                manifests[i],
                None,
                Some(current_dir),
            ),
    ensures
        spec_first_match(outcomes, 0) == Ok::<Option<int>, FdepError>(
            spec_first_equal(dirs, current_dir, 0),
        ),
{
    assert forall|j: int| 0 <= j < outcomes.len() implies (#[trigger] outcomes[j]) == Ok::<
        bool,
        FdepError,
    >(dirs[j] == current_dir) by {
        assert(match_outcome_allowed(outcomes[j], manifests[j], None, Some(current_dir)));
        assert(manifest_dir(manifests[j], dirs[j], names[j]));
    }
    lemma_first_match_equal(outcomes, dirs, current_dir, 0);
}

proof fn lemma_first_match_from(
    outcomes: Seq<Result<bool, FdepError>>,
    i: nat,
)
    requires
        forall|j: int| i <= j < outcomes.len() ==> (#[trigger] outcomes[j]) is Ok,
    ensures
        spec_first_match(outcomes, i) is Ok,
    decreases outcomes.len() - i,
{
    if i < outcomes.len() {
        lemma_first_match_from(outcomes, i + 1);
    }
}

/// Selecting the package by an explicit manifest path never fails; without one,
/// and without a known current directory, it fails with the current directory
/// as soon as there is a package to test.
pub proof fn law_selection_failures(
    outcomes: Seq<Result<bool, FdepError>>,
    manifests: Seq<Seq<char>>,
    manifest_path: Option<Seq<char>>,
    current_dir: Option<Seq<char>>,
)
    requires
        outcomes.len() == manifests.len(),
        forall|i: int|
            0 <= i < outcomes.len() ==> match_outcome_allowed(
                #[trigger] outcomes[i],
                manifests[i],
                manifest_path,
                current_dir,
            ),
    ensures
        manifest_path is Some ==> spec_first_match(outcomes, 0) is Ok,
        manifest_path is None && current_dir is None && outcomes.len() > 0 ==> spec_first_match(
            outcomes,
            0,
        ) == Err::<Option<int>, FdepError>(FdepError::CurrentDirUnavailable),
{
    if manifest_path is Some {
        assert forall|j: int| 0 <= j < outcomes.len() implies (#[trigger] outcomes[j]) is Ok by {
            assert(match_outcome_allowed(outcomes[j], manifests[j], manifest_path, current_dir));
        }
        lemma_first_match_from(outcomes, 0);
    }
    if manifest_path is None && current_dir is None && outcomes.len() > 0 {
        assert(match_outcome_allowed(outcomes[0], manifests[0], manifest_path, current_dir));
    }
}

/// `cargo fdep` always names a target platform for cargo: for every supported
/// target (library or binary), when no argument before the first `--` begins
/// with `--target`, the cargo command line ends with `--target HOST`, whatever
/// the target's kind. For a library it is exactly `check --lib`, then `-q` when
/// quiet, then the user's cargo arguments, then `--target HOST`, after cleaning;
/// for a binary the same with `--bin NAME` in place of `--lib`, without cleaning.
pub proof fn law_supported_targets_name_the_host(
    r: TargetStep,
    target: TargetModel,
    args: Seq<Seq<char>>,
    quiet: bool,
    host: Seq<char>,
)
    requires
        step_matches(r, target, args, quiet, Some(host)),
        spec_target_kind(target.kind.deep_view()) != TargetKind::Unknown,
        forall|k: int|
            0 <= k < flag_region(args).len() ==> !"--target"@.is_prefix_of(
                #[trigger] flag_region(args)[k],
            ),
    ensures
        match r {
            TargetStep::Check { cargo_args, .. } => {
                let c = cargo_args.deep_view();
                &&& c.len() >= 2
                &&& c[c.len() - 2] == "--target"@
                &&& c[c.len() - 1] == host
            },
            TargetStep::Unsupported { .. } => false,
        },
        spec_target_kind(target.kind.deep_view()) == TargetKind::Library ==> match r {
            TargetStep::Check { clean_package, cargo_args, .. } => clean_package
                && cargo_args.deep_view() == seq!["check"@, "--lib"@] + (if quiet {
                seq!["-q"@]
            } else {
                Seq::empty()
            }) + cargo_forwarded(args) + seq!["--target"@, host],
            TargetStep::Unsupported { .. } => false,
        },
        spec_target_kind(target.kind.deep_view()) == TargetKind::Bin ==> match r {
            TargetStep::Check { clean_package, cargo_args, .. } => !clean_package
                && cargo_args.deep_view() == seq!["check"@, "--bin"@, target.name@] + (if quiet {
                seq!["-q"@]
            } else {
                Seq::empty()
            }) + cargo_forwarded(args) + seq!["--target"@, host],
            TargetStep::Unsupported { .. } => false,
        },
{
    lemma_value_absent(flag_region(args), "--target"@, 0);
    assert(spec_flag_value(args, "--target"@) is None);
    if let TargetStep::Check { clean_package, cargo_args, fdep_args } = r {
        let c = cargo_args.deep_view();
        assert(c[c.len() - 2] == "--target"@);
        if spec_target_kind(target.kind.deep_view()) == TargetKind::Library {
            assert(c =~= seq!["check"@, "--lib"@] + (if quiet {
                seq!["-q"@]
            } else {
                Seq::empty()
            }) + cargo_forwarded(args) + seq!["--target"@, host]);
        }
        if spec_target_kind(target.kind.deep_view()) == TargetKind::Bin {
            assert(c =~= seq!["check"@, "--bin"@, target.name@] + (if quiet {
                seq!["-q"@]
            } else {
                Seq::empty()
            }) + cargo_forwarded(args) + seq!["--target"@, host]);
        }
    }
}

/// A `--target` value given before the first `--`, as `--target VALUE` or as
/// `--target=VALUE`, is the user's: `cargo fdep` then adds no target of its own.
pub proof fn law_given_target_is_respected(args: Seq<Seq<char>>, j: int)
    requires
        0 <= j < args.len(),
        forall|k: int| 0 <= k <= j ==> args[k] != "--"@,
        (args[j] == "--target"@ && j + 1 < args.len() && args[j + 1] != "--"@) || ("--target"@
            + seq!['=']).is_prefix_of(args[j]),
    ensures
        !spec_needs_default_target(args),
{
    lemma_region_end(args, 0);
    let e = region_end_from(args, 0);
    if e <= j {
        assert(args[e as int] == "--"@);
    }
    if args[j] == "--target"@ && j + 1 < args.len() && args[j + 1] != "--"@ {
        if e == j + 1 {
            assert(args[e as int] == "--"@);
        }
    }
    let region = flag_region(args);
    assert(region[j] == args[j]);
    if args[j] == "--target"@ && j + 1 < args.len() && args[j + 1] != "--"@ {
        assert(j + 1 < region.len());
    }
    assert(gives_value(region, "--target"@, j));
    lemma_value_found(region, "--target"@, 0, j as nat);
}

/// `--target VALUE` and `--target=VALUE` give the same answer: with either form
/// placed after arguments that hold no `--`, no target is added.
pub proof fn law_target_forms_agree(before: Seq<Seq<char>>, v: Seq<char>, rest: Seq<Seq<char>>)
    requires
        !before.contains("--"@),
        v != "--"@,
    ensures
        !spec_needs_default_target(before + seq!["--target"@, v] + rest),
        !spec_needs_default_target(before + seq!["--target"@ + seq!['='] + v] + rest),
        spec_needs_default_target(before + seq!["--target"@, v] + rest)
            == spec_needs_default_target(before + seq!["--target"@ + seq!['='] + v] + rest),
{
    let a1 = before + seq!["--target"@, v] + rest;
    let a2 = before + seq!["--target"@ + seq!['='] + v] + rest;
    let j = before.len() as int;
    assert forall|k: int| 0 <= k <= j implies a1[k] != "--"@ by {
        if k < j {
            assert(a1[k] == before[k]);
            if before[k] == "--"@ {
                assert(before.contains("--"@));
            }
        } else {
            assert(a1[k] == "--target"@);
            assert("--target"@.len() != "--"@.len()) by {
                reveal_strlit("--target");
                reveal_strlit("--");
            }
        }
    }
    assert(a1[j] == "--target"@);
    assert(a1[j + 1] == v);
    law_given_target_is_respected(a1, j);
    let eq = "--target"@ + seq!['='];
    assert forall|k: int| 0 <= k <= j implies a2[k] != "--"@ by {
        if k < j {
            assert(a2[k] == before[k]);
            if before[k] == "--"@ {
                assert(before.contains("--"@));
            }
        } else {
            assert(a2[k] == eq + v);
            assert((eq + v).len() != "--"@.len()) by {
                reveal_strlit("--target");
                reveal_strlit("--");
            }
        }
    }
    assert(a2[j] == eq + v);
    assert(eq.is_prefix_of(eq + v)) by {
        assert(eq =~= (eq + v).subrange(0, eq.len() as int));
    }
    law_given_target_is_respected(a2, j);
}

/// Every `--crate-type` value counts: after arguments that do not begin with
/// `--crate-type`, a value `v` (given as `--crate-type v` or `--crate-type=v`)
/// makes the crate a library crate if `v` is `lib`, `rlib` or `staticlib`, and
/// otherwise the answer is that of the arguments after it. So adding
/// `--crate-type rlib` after other values makes the answer true.
pub proof fn law_every_crate_type_counts(before: Seq<Seq<char>>, v: Seq<char>, rest: Seq<Seq<char>>)
    requires
        !(before + seq!["--crate-type"@, v] + rest).contains("--"@),
        !(before + seq!["--crate-type"@ + seq!['='] + v] + rest).contains("--"@),
        forall|k: int| 0 <= k < before.len() ==> !"--crate-type"@.is_prefix_of(#[trigger] before[k]),
    ensures
        spec_crate_type_lib(before + seq!["--crate-type"@, v] + rest) == (spec_is_lib_str(v)
            || spec_crate_type_lib(rest)),
        spec_crate_type_lib(before + seq!["--crate-type"@ + seq!['='] + v] + rest) == (
        spec_is_lib_str(v) || spec_crate_type_lib(rest)),
{
    let name = "--crate-type"@;
    let eq = name + seq!['='];
    let a1 = before + seq![name, v] + rest;
    let a2 = before + seq![eq + v] + rest;
    let j = before.len();
    lemma_region_without_separator(a1);
    lemma_region_without_separator(a2);
    if rest.contains("--"@) {
        let k = choose|k: int| 0 <= k < rest.len() && rest[k] == "--"@;
        assert(a1[(before.len() + 2 + k) as int] == "--"@);
        assert(a1.contains("--"@));
    }
    lemma_region_without_separator(rest);
    let c = flag_candidates(rest, name);
    // The first form: `--crate-type` then `v`.
    assert forall|k: int| 0 <= k < j implies !name.is_prefix_of(#[trigger] a1[k]) by {
        assert(a1[k] == before[k]);
    }
    lemma_candidates_skip(a1, name, 0, j);
    assert(a1[j as int] == name);
    assert(name.is_prefix_of(name)) by {
        assert(name =~= name.subrange(0, name.len() as int));
    }
    assert(name.skip(name.len() as int).len() == 0);
    assert(a1[(j + 1) as int] == v);
    lemma_candidates_shift(before + seq![name, v], rest, name, 0);
    assert(before + seq![name, v] + rest == a1);
    assert(flag_candidates(a1, name) == seq![v] + c);
    // The second form: `--crate-type=v`.
    assert forall|k: int| 0 <= k < j implies !name.is_prefix_of(#[trigger] a2[k]) by {
        assert(a2[k] == before[k]);
    }
    lemma_candidates_skip(a2, name, 0, j);
    assert(a2[j as int] == eq + v);
    assert(name.is_prefix_of(eq + v)) by {
        assert(name =~= (eq + v).subrange(0, name.len() as int));
    }
    let suffix = (eq + v).skip(name.len() as int);
    assert(suffix =~= seq!['='] + v);
    assert(suffix.drop_first() =~= v);
    lemma_candidates_shift(before + seq![eq + v], rest, name, 0);
    assert(flag_candidates(a2, name) == seq![v] + c);
    // Some value counts exactly when `v` or a later value does.
    let c1 = seq![v] + c;
    assert((exists|k: int| 0 <= k < c1.len() && spec_is_lib_str(#[trigger] c1[k])) == (
    spec_is_lib_str(v) || exists|k: int| 0 <= k < c.len() && spec_is_lib_str(#[trigger] c[k])))
        by {
        if exists|k: int| 0 <= k < c1.len() && spec_is_lib_str(#[trigger] c1[k]) {
            let k = choose|k: int| 0 <= k < c1.len() && spec_is_lib_str(#[trigger] c1[k]);
            if k > 0 {
                assert(c1[k] == c[k - 1]);
            }
        }
        if exists|k: int| 0 <= k < c.len() && spec_is_lib_str(#[trigger] c[k]) {
            let k = choose|k: int| 0 <= k < c.len() && spec_is_lib_str(#[trigger] c[k]);
            assert(c1[k + 1] == c[k]);
        }
        if spec_is_lib_str(v) {
            assert(c1[0] == v);
        }
    }
}

/// Having a workspace means having at least two workspace members: the answer
/// is that of the member list alone, so packages that are not members, such as
/// dependencies, change nothing.
pub proof fn law_workspace_means_several_members(
    a1: Analysis,
    a2: Analysis,
    m1: MetadataModel,
    m2: MetadataModel,
    args: Seq<Seq<char>>,
)
    requires
        analysis_matches(a1, m1, args),
        analysis_matches(a2, m2, args),
        m2.workspace_members@ == m1.workspace_members@,
    ensures
        a1.has_workspace == (m1.workspace_members@.len() > 1),
        a1.has_workspace == a2.has_workspace,
        a1.workspace_members == a2.workspace_members,
{
}

/// A target is a binary exactly when its first kind is `bin` and no kind is a
/// library kind; a library as soon as some kind is `lib`, `rlib` or `staticlib`.
pub proof fn law_binary_only_when_first_kind_is_bin(kinds: Seq<Seq<char>>)
    ensures
        spec_target_kind(kinds) == TargetKind::Bin ==> kinds.len() > 0 && kinds[0] == "bin"@
            && forall|i: int| 0 <= i < kinds.len() ==> !spec_is_lib_str(#[trigger] kinds[i]),
        (exists|i: int| 0 <= i < kinds.len() && spec_is_lib_str(#[trigger] kinds[i]))
            ==> spec_target_kind(kinds) == TargetKind::Library,
        kinds.len() > 0 && kinds[0] == "bin"@ && (forall|i: int|
            0 <= i < kinds.len() ==> !spec_is_lib_str(#[trigger] kinds[i])) ==> spec_target_kind(
            kinds,
        ) == TargetKind::Bin,
{
}

/// Benches, examples, tests and build scripts are not supported: a target whose
/// only kind is `bench`, `example`, `test` or `custom-build` is of unknown kind.
pub proof fn law_other_kinds_are_unsupported()
    ensures
        spec_target_kind(seq!["bench"@]) == TargetKind::Unknown,
        spec_target_kind(seq!["example"@]) == TargetKind::Unknown,
        spec_target_kind(seq!["test"@]) == TargetKind::Unknown,
        spec_target_kind(seq!["custom-build"@]) == TargetKind::Unknown,
{
    reveal_strlit("bench");
    reveal_strlit("example");
    reveal_strlit("test");
    reveal_strlit("custom-build");
    reveal_strlit("lib");
    reveal_strlit("rlib");
    reveal_strlit("staticlib");
    reveal_strlit("bin");
    assert("test"@[0] != "rlib"@[0]);
    assert("bench"@.len() != "bin"@.len());
    let ks = seq!["bench"@, "example"@, "test"@, "custom-build"@];
    assert forall|k: int| 0 <= k < ks.len() implies !spec_is_lib_str(ks[k]) && ks[k] != "bin"@ by {
        assert(ks[k].len() != "lib"@.len() || ks[k] == "test"@);
    }
    assert(seq!["bench"@][0] == ks[0]);
    assert(seq!["example"@][0] == ks[1]);
    assert(seq!["test"@][0] == ks[2]);
    assert(seq!["custom-build"@][0] == ks[3]);
}

} // verus!
