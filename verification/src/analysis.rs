//! The summary printed after the analysis, with the flags that would make
//! `cargo fdep` cover more of the workspace.

use vstd::prelude::*;
use vstd::string::*;
use crate::metadata::{contains_str, MetadataModel, PackageModel};
use crate::text::owned;

verus! {

/// What the analysis found, and what it suggests.
#[derive(Debug)]
pub struct Analysis {
    /// Some package declares features.
    pub has_features: bool,
    /// The workspace has more than one member.
    pub has_workspace: bool,
    /// Some package has a target of kind `test`.
    pub has_tests: bool,
    pub used_all_features: bool,
    pub used_all_targets: bool,
    pub used_tests: bool,
    pub used_workspace: bool,
    /// The flags worth adding, each with the reason it helps.
    pub suggestions: Vec<String>,
    /// The command line to run instead, when there is something to suggest.
    pub optimal_command: Option<String>,
    /// The number of packages that were analysed.
    pub packages_analyzed: usize,
    /// The number of features over all packages, reported when there are features.
    pub total_features: Option<usize>,
    /// The number of workspace members, reported for a workspace.
    pub workspace_members: Option<usize>,
}

/// Some package declares a feature.
pub open spec fn spec_has_features(m: MetadataModel) -> bool {
    exists|i: int| 0 <= i < m.packages@.len() && (#[trigger] m.packages@[i]).feature_count > 0
}

/// Package `p` has a target with a kind named `test`.
pub open spec fn package_has_test_target(p: PackageModel) -> bool {
    exists|t: int|
        0 <= t < p.targets@.len() && (#[trigger] p.targets@[t]).kind.deep_view().contains("test"@)
}

/// Some package has a target of kind `test`.
pub open spec fn spec_has_tests(m: MetadataModel) -> bool {
    exists|i: int| 0 <= i < m.packages@.len() && package_has_test_target(#[trigger] m.packages@[i])
}

/// The workspace has more than one member.
pub open spec fn spec_has_workspace(m: MetadataModel) -> bool {
    m.workspace_members@.len() > 1
}

/// The number of features of the first `n` packages.
pub open spec fn feature_total_upto(pkgs: Seq<PackageModel>, n: int) -> nat
    decreases n,
{
    if n <= 0 {
        0
    } else {
        feature_total_upto(pkgs, n - 1) + (pkgs[n - 1].feature_count as nat)
    }
}

/// The number of features over all packages.
pub open spec fn spec_total_features(m: MetadataModel) -> nat {
    feature_total_upto(m.packages@, m.packages@.len() as int)
}

/// `extra` if `cond`, else nothing.
pub open spec fn when(cond: bool, extra: Seq<Seq<char>>) -> Seq<Seq<char>> {
    if cond {
        extra
    } else {
        Seq::empty()
    }
}

/// The suggested flags, in the order they are shown.
pub open spec fn spec_suggestions(
    has_features: bool,
    has_workspace: bool,
    has_tests: bool,
    used_all_features: bool,
    used_all_targets: bool,
    used_tests: bool,
    used_workspace: bool,
) -> Seq<Seq<char>> {
    when(has_features && !used_all_features, seq!["--all-features (to analyze all feature-gated code)"@])
        + when(!used_all_targets, seq!["--all-targets (to include tests, examples, benches)"@])
        + when(
        has_tests && !used_tests && !used_all_targets,
        seq!["--tests (to analyze test functions)"@],
    ) + when(has_workspace && !used_workspace, seq!["--workspace (to analyze all workspace members)"@])
}

/// The text `extra` if `cond`, else nothing.
pub open spec fn text_when(cond: bool, extra: Seq<char>) -> Seq<char> {
    if cond {
        extra
    } else {
        Seq::empty()
    }
}

/// The command line suggested in place of the one used.
pub open spec fn spec_optimal_command(
    has_features: bool,
    has_workspace: bool,
    used_all_features: bool,
    used_all_targets: bool,
    used_workspace: bool,
) -> Seq<char> {
    "cargo fdep"@ + text_when(has_workspace && !used_workspace, " --workspace"@) + text_when(
        has_features && !used_all_features,
        " --all-features"@,
    ) + text_when(!used_all_targets, " --all-targets"@)
}

/// The analysis of `m` for the command line `args` (all of it, `--` included).
pub open spec fn analysis_matches(a: Analysis, m: MetadataModel, args: Seq<Seq<char>>) -> bool {
    &&& a.has_features == spec_has_features(m)
    &&& a.has_workspace == spec_has_workspace(m)
    &&& a.has_tests == spec_has_tests(m)
    &&& a.used_all_features == args.contains("--all-features"@)
    &&& a.used_all_targets == args.contains("--all-targets"@)
    &&& a.used_tests == args.contains("--tests"@)
    &&& a.used_workspace == args.contains("--workspace"@)
    &&& a.suggestions.deep_view() == spec_suggestions(
        a.has_features,
        a.has_workspace,
        a.has_tests,
        a.used_all_features,
        a.used_all_targets,
        a.used_tests,
        a.used_workspace,
    )
    &&& (a.suggestions@.len() == 0 <==> a.optimal_command is None)
    &&& (a.optimal_command matches Some(c) ==> c@ == spec_optimal_command(
        a.has_features,
        a.has_workspace,
        a.used_all_features,
        a.used_all_targets,
        a.used_workspace,
    ))
    &&& a.packages_analyzed == m.packages@.len()
    &&& (a.total_features is Some <==> a.has_features)
    &&& (a.total_features matches Some(t) ==> t == spec_total_features(m))
    &&& (a.workspace_members is Some <==> a.has_workspace)
    &&& (a.workspace_members matches Some(w) ==> w == m.workspace_members@.len())
}

proof fn lemma_feature_total_monotone(pkgs: Seq<PackageModel>, i: int, n: int)
    requires
        0 <= i <= n,
    ensures
        feature_total_upto(pkgs, i) <= feature_total_upto(pkgs, n),
    decreases n - i,
{
    if i < n {
        lemma_feature_total_monotone(pkgs, i, n - 1);
    }
}

/// Whether some package declares a feature.
fn any_features(m: &MetadataModel) -> (r: bool)
    ensures
        r == spec_has_features(*m),
{
    let n = m.packages.len();
    let mut i: usize = 0;
    while i < n
        invariant
            n == m.packages@.len(),
            i <= n,
            forall|j: int| 0 <= j < i ==> (#[trigger] m.packages@[j]).feature_count == 0,
        decreases n - i,
    {
        if m.packages[i].feature_count > 0 {
            return true;
        }
        i = i + 1;
    }
    false
}

/// Whether some package has a target of kind `test`.
fn any_tests(m: &MetadataModel) -> (r: bool)
    ensures
        r == spec_has_tests(*m),
{
    let n = m.packages.len();
    let mut i: usize = 0;
    while i < n
        invariant
            n == m.packages@.len(),
            i <= n,
            forall|j: int| 0 <= j < i ==> !package_has_test_target(#[trigger] m.packages@[j]),
        decreases n - i,
    {
        let pkg = &m.packages[i];
        let nt = pkg.targets.len();
        let mut t: usize = 0;
        while t < nt
            invariant
                n == m.packages@.len(),
                i < n,
                *pkg == m.packages@[i as int],
                nt == pkg.targets@.len(),
                t <= nt,
                forall|u: int|
                    0 <= u < t ==> !(#[trigger] pkg.targets@[u]).kind.deep_view().contains(
                        "test"@,
                    ),
            decreases nt - t,
        {
            if contains_str(&pkg.targets[t].kind, "test") {
                let ghost kinds = pkg.targets@[t as int].kind;
                proof {
                    let j = choose|j: int| 0 <= j < kinds@.len() && (#[trigger] kinds@[j])@ == "test"@;
                    assert(kinds.deep_view()[j] == "test"@);
                    assert(pkg.targets@[t as int].kind.deep_view().contains("test"@));
                    assert(package_has_test_target(m.packages@[i as int]));
                }
                return true;
            }
            proof {
                let kinds = pkg.targets@[t as int].kind;
                assert forall|j: int| 0 <= j < kinds.deep_view().len() implies kinds.deep_view()[j] != "test"@ by {
                    assert(kinds.deep_view()[j] == kinds@[j]@);
                }
            }
            t = t + 1;
        }
        i = i + 1;
    }
    false
}

/// The number of features over all packages.
fn count_features(m: &MetadataModel) -> (r: usize)
    requires
        spec_total_features(*m) <= usize::MAX,
    ensures
        r == spec_total_features(*m),
{
    let n = m.packages.len();
    let mut total: usize = 0;
    let mut i: usize = 0;
    while i < n
        invariant
            n == m.packages@.len(),
            i <= n,
            total == feature_total_upto(m.packages@, i as int),
            feature_total_upto(m.packages@, n as int) <= usize::MAX,
        decreases n - i,
    {
        proof {
            lemma_feature_total_monotone(m.packages@, i + 1, n as int);
        }
        total = total + m.packages[i].feature_count;
        i = i + 1;
    }
    total
}

/// Whether some argument is exactly `flag`.
fn args_contain(args: &Vec<String>, flag: &str) -> (r: bool)
    ensures
        r == args.deep_view().contains(flag@),
{
    let r = contains_str(args, flag);
    proof {
        if r {
            let j = choose|j: int| 0 <= j < args@.len() && (#[trigger] args@[j])@ == flag@;
            assert(args.deep_view()[j] == flag@);
        } else {
            assert forall|j: int| 0 <= j < args.deep_view().len() implies args.deep_view()[j] != flag@ by {
                assert(args.deep_view()[j] == args@[j]@);
            }
        }
    }
    r
}

/// Looks at what was analysed and at the flags used (anywhere on the command
/// line `args`), and suggests the flags that would cover more: all features
/// where there are features, all targets, tests where there are tests, and the
/// whole workspace where there is one. The total of features must fit in a `usize`.
pub fn analyze_and_suggest_better_command(metadata: &MetadataModel, args: &Vec<String>) -> (r:
    Analysis)
    requires
        spec_total_features(*metadata) <= usize::MAX,
    ensures
        analysis_matches(r, *metadata, args.deep_view()),
{
    let has_workspace = metadata.workspace_members.len() > 1;
    let has_features = any_features(metadata);
    let has_tests = any_tests(metadata);
    let used_all_features = args_contain(args, "--all-features");
    let used_all_targets = args_contain(args, "--all-targets");
    let used_tests = args_contain(args, "--tests");
    let used_workspace = args_contain(args, "--workspace");

    let mut suggestions: Vec<String> = Vec::new();
    if has_features && !used_all_features {
        suggestions.push(owned("--all-features (to analyze all feature-gated code)"));
    }
    if !used_all_targets {
        suggestions.push(owned("--all-targets (to include tests, examples, benches)"));
    }
    if has_tests && !used_tests && !used_all_targets {
        suggestions.push(owned("--tests (to analyze test functions)"));
    }
    if has_workspace && !used_workspace {
        suggestions.push(owned("--workspace (to analyze all workspace members)"));
    }
    assert(suggestions.deep_view() =~= spec_suggestions(
        has_features,
        has_workspace,
        has_tests,
        used_all_features,
        used_all_targets,
        used_tests,
        used_workspace,
    ));

    let optimal_command = if suggestions.len() > 0 {
        let mut cmd = owned("cargo fdep");
        if has_workspace && !used_workspace {
            cmd.append(" --workspace");
        }
        if has_features && !used_all_features {
            cmd.append(" --all-features");
        }
        if !used_all_targets {
            cmd.append(" --all-targets");
        }
        assert(cmd@ =~= spec_optimal_command(
            has_features,
            has_workspace,
            used_all_features,
            used_all_targets,
            used_workspace,
        ));
        Some(cmd)
    } else {
        None
    };

    let total_features = if has_features {
        Some(count_features(metadata))
    } else {
        None
    };
    let workspace_members = if has_workspace {
        Some(metadata.workspace_members.len())
    } else {
        None
    };
    Analysis {
        has_features,
        has_workspace,
        has_tests,
        used_all_features,
        used_all_targets,
        used_tests,
        used_workspace,
        suggestions,
        optimal_command,
        packages_analyzed: metadata.packages.len(),
        total_features,
        workspace_members,
    }
}

} // verus!
