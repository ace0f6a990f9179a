//! The decisions of the driver: which mode it runs in, which `cargo check`
//! command it runs for each target, and which compilers it runs when cargo
//! calls it in place of `rustc`.

use vstd::prelude::*;
use vstd::string::*;
use crate::args::{
    any_arg_flag, flag_candidates, flag_region, flag_region_len, get_arg_flag_value,
    get_first_arg_with_rs_suffix, region_end_from, spec_first_rs_arg, spec_flag_value,
};
use crate::error::FdepError;
use crate::json::{decode_arg_list, parse_json_string_array};
use crate::metadata::TargetModel;
use crate::paths::{
    no_separator, normal_path, path_is_relative, plainly_relative, same_path, single_component,
};
use crate::target::{spec_is_lib_str, spec_target_kind, TargetKind};
use crate::text::{ends_with, join, owned, seq_join, str_equals};

verus! {

/// How long one `cargo check` may run before it is killed, in seconds.
pub const CHECK_TIMEOUT_SECS: u64 = 3600;

/// The exit code used when a failed compiler reports none.
pub const DEFAULT_FAILURE_CODE: i32 = 42;

/// The mode the driver runs in, chosen by its first argument.
#[derive(Clone, Copy, Debug, PartialEq, Eq, Structural)]
pub enum Invocation {
    /// Run as `cargo fdep`: check every applicable target.
    CargoFdep,
    /// Run by cargo in place of `rustc`.
    RustcWrapper,
    /// No first argument was given.
    MissingSubcommand,
    /// The first argument is neither `fdep` nor a path ending in `rustc`.
    UnknownSubcommand,
}

/// `s` without its first `n` elements, or nothing if it has fewer.
pub open spec fn drop_n<A>(s: Seq<A>, n: int) -> Seq<A> {
    if n <= s.len() {
        s.skip(n)
    } else {
        Seq::empty()
    }
}

/// The mode for the command line `args` (whose first element is the program).
pub open spec fn spec_invocation(args: Seq<Seq<char>>) -> Invocation {
    if args.len() < 2 {
        Invocation::MissingSubcommand
    } else if args[1] == "fdep"@ {
        Invocation::CargoFdep
    } else if "rustc"@.is_suffix_of(args[1]) {
        Invocation::RustcWrapper
    } else {
        Invocation::UnknownSubcommand
    }
}

/// The mode the driver runs in. The command line holds at least the program itself.
pub fn classify_invocation(args: &Vec<String>) -> (r: Invocation)
    requires
        args.len() >= 1,
    ensures
        r == spec_invocation(args.deep_view()),
{
    if args.len() < 2 {
        return Invocation::MissingSubcommand;
    }
    let first = args[1].as_str();
    assert(args.deep_view()[1] == first@);
    if str_equals(first, "fdep") {
        Invocation::CargoFdep
    } else if ends_with(first, "rustc") {
        Invocation::RustcWrapper
    } else {
        Invocation::UnknownSubcommand
    }
}

/// What to do for one target.
#[derive(Debug)]
pub enum TargetStep {
    /// The target's kind is not supported: show `message` and go on.
    Unsupported { message: String },
    /// Clean the package first when `clean_package`, then run `cargo` with
    /// `cargo_args`, handing `fdep_args` down to fdep.
    Check { clean_package: bool, cargo_args: Vec<String>, fdep_args: Vec<String> },
}

/// The arguments of `cargo fdep` after `cargo` and `fdep`.
pub open spec fn user_args(args: Seq<Seq<char>>) -> Seq<Seq<char>> {
    drop_n(args, 2)
}

/// The arguments for cargo: the user's arguments before their first `--`.
pub open spec fn cargo_forwarded(args: Seq<Seq<char>>) -> Seq<Seq<char>> {
    flag_region(user_args(args))
}

/// The arguments for fdep: the user's arguments after their first `--`.
pub open spec fn fdep_forwarded(args: Seq<Seq<char>>) -> Seq<Seq<char>> {
    drop_n(user_args(args), (region_end_from(user_args(args), 0) + 1) as int)
}

/// Whether `cargo fdep` must name the target platform itself: the user gave no `--target`.
pub open spec fn spec_needs_default_target(args: Seq<Seq<char>>) -> bool {
    spec_flag_value(args, "--target"@) is None
}

/// The cargo arguments that select a target of kind `kind` named `name`.
pub open spec fn kind_selection(kind: TargetKind, name: Seq<char>) -> Seq<Seq<char>> {
    match kind {
        TargetKind::Bin => seq!["--bin"@, name],
        _ => seq!["--lib"@],
    }
}

/// The full `cargo check` command line for a target.
pub open spec fn spec_check_args(
    kind: TargetKind,
    name: Seq<char>,
    args: Seq<Seq<char>>,
    quiet: bool,
    host: Option<Seq<char>>,
) -> Seq<Seq<char>> {
    seq!["check"@] + kind_selection(kind, name) + (if quiet {
        seq!["-q"@]
    } else {
        Seq::empty()
    }) + cargo_forwarded(args) + (if spec_needs_default_target(args) {
        seq!["--target"@, host.unwrap()]
    } else {
        Seq::empty()
    })
}

/// The message shown for a target whose kind is not supported.
pub open spec fn spec_unsupported_message(target: TargetModel) -> Seq<char> {
    "Target "@ + seq_join(target.kind.deep_view(), "/"@) + ":"@ + target.name@
        + " is not supported"@
}

/// The step taken for `target`, given the whole command line `args`, whether
/// cargo should be quiet, and the host platform (needed when no `--target` was given).
pub open spec fn step_matches(
    r: TargetStep,
    target: TargetModel,
    args: Seq<Seq<char>>,
    quiet: bool,
    host: Option<Seq<char>>,
) -> bool {
    let kind = spec_target_kind(target.kind.deep_view());
    match r {
        TargetStep::Unsupported { message } => kind == TargetKind::Unknown && message@
            == spec_unsupported_message(target),
        TargetStep::Check { clean_package, cargo_args, fdep_args } => {
            &&& kind != TargetKind::Unknown
            &&& clean_package == (kind == TargetKind::Library)
            &&& cargo_args.deep_view() == spec_check_args(kind, target.name@, args, quiet, host)
            &&& fdep_args.deep_view() == fdep_forwarded(args)
        },
    }
}

/// Whether `cargo fdep` must pass `--target` with the host platform itself.
pub fn needs_default_target(args: &Vec<String>) -> (r: bool)
    ensures
        r == spec_needs_default_target(args.deep_view()),
{
    get_arg_flag_value(args, "--target").is_none()
}

/// Copies `args[from..to]`.
fn copy_range(args: &Vec<String>, from: usize, to: usize, out: &mut Vec<String>)
    requires
        from <= to <= args.len(),
    ensures
        final(out).deep_view() == old(out).deep_view() + args.deep_view().subrange(
            from as int,
            to as int,
        ),
{
    let ghost start = out.deep_view();
    let mut i = from;
    while i < to
        invariant
            from <= i <= to <= args.len(),
            out.deep_view() == start + args.deep_view().subrange(from as int, i as int),
        decreases to - i,
    {
        let ghost before = out.deep_view();
        out.push(args[i].clone());
        assert(out.deep_view() =~= before.push(args[i as int]@));
        assert(args.deep_view().subrange(from as int, i + 1) =~= args.deep_view().subrange(
            from as int,
            i as int,
        ).push(args.deep_view()[i as int]));
        i = i + 1;
    }
}

/// The arguments after the first `skip` ones, as a new list.
pub fn args_after(args: &Vec<String>, skip: usize) -> (r: Vec<String>)
    ensures
        r.deep_view() == drop_n(args.deep_view(), skip as int),
{
    let mut r: Vec<String> = Vec::new();
    if skip <= args.len() {
        copy_range(args, skip, args.len(), &mut r);
        assert(args.deep_view().subrange(skip as int, args.len() as int) =~= args.deep_view().skip(
            skip as int,
        ));
    }
    assert(r.deep_view() =~= drop_n(args.deep_view(), skip as int));
    r
}

/// Pushes a copy of `s` onto `out`.
fn push_str(out: &mut Vec<String>, s: &str)
    ensures
        final(out).deep_view() == old(out).deep_view().push(s@),
{
    let ghost before = out.deep_view();
    out.push(owned(s));
    assert(out.deep_view() =~= before.push(s@));
}

/// The step for one target of a package: an unsupported kind is reported and
/// skipped; a binary is checked with `--bin NAME`; a library with `--lib`, after
/// cleaning the package so that cargo does not skip it as fresh. Cargo gets
/// `-q` when `quiet`, then the user's arguments up to their first `--`, then
/// `--target HOST` when the user named no target; the user's arguments after
/// that `--` are for fdep. The host is needed only for a supported target with
/// no `--target` given.
pub fn plan_target(target: &TargetModel, args: &Vec<String>, quiet: bool, host: &Option<String>) -> (r:
    TargetStep)
    requires
        spec_target_kind(target.kind.deep_view()) != TargetKind::Unknown
            && spec_needs_default_target(args.deep_view()) ==> host is Some,
    ensures
        step_matches(r, *target, args.deep_view(), quiet, crate::args::opt_view(*host)),
{
    let kind = TargetKind::from_kind_names(&target.kind);
    match kind {
        TargetKind::Unknown => {
            let mut message = owned("Target ");
            let kinds = join(&target.kind, "/");
            message.append(kinds.as_str());
            message.append(":");
            message.append(target.name.as_str());
            message.append(" is not supported");
            return TargetStep::Unsupported { message };
        },
        _ => {},
    }
    let mut cargo_args: Vec<String> = Vec::new();
    push_str(&mut cargo_args, "check");
    match kind {
        TargetKind::Bin => {
            push_str(&mut cargo_args, "--bin");
            push_str(&mut cargo_args, target.name.as_str());
        },
        _ => {
            push_str(&mut cargo_args, "--lib");
        },
    }
    if quiet {
        push_str(&mut cargo_args, "-q");
    }
    let rest = args_after(args, 2);
    let end = flag_region_len(&rest);
    let ghost before_forwarded = cargo_args.deep_view();
    copy_range(&rest, 0, end, &mut cargo_args);
    assert(rest.deep_view().subrange(0, end as int) =~= cargo_forwarded(args.deep_view()));
    if needs_default_target(args) {
        push_str(&mut cargo_args, "--target");
        match host {
            Some(h) => push_str(&mut cargo_args, h.as_str()),
            None => {},
        }
    }
    let fdep_args = if end < rest.len() {
        args_after(&rest, end + 1)
    } else {
        let empty: Vec<String> = Vec::new();
        assert(empty.deep_view() =~= fdep_forwarded(args.deep_view()));
        empty
    };
    assert(fdep_args.deep_view() == fdep_forwarded(args.deep_view()));
    assert(cargo_args.deep_view() =~= spec_check_args(
        kind,
        target.name@,
        args.deep_view(),
        quiet,
        crate::args::opt_view(*host),
    ));
    TargetStep::Check { clean_package: kind == TargetKind::Library, cargo_args, fdep_args }
}

/// The command line of `cargo clean` for a package on the host platform.
pub fn clean_command_args(package_name: &str, host: &str) -> (r: Vec<String>)
    ensures
        r.deep_view() == seq!["clean"@, "-p"@, package_name@, "--target"@, host@],
{
    let mut r: Vec<String> = Vec::new();
    push_str(&mut r, "clean");
    push_str(&mut r, "-p");
    push_str(&mut r, package_name);
    push_str(&mut r, "--target");
    push_str(&mut r, host);
    assert(r.deep_view() =~= seq!["clean"@, "-p"@, package_name@, "--target"@, host@]);
    r
}

/// How one `cargo check` ended.
#[derive(Clone, Copy, Debug, PartialEq, Eq, Structural)]
pub enum CheckOutcome {
    Succeeded,
    /// It exited with a failure status.
    Failed,
    /// It ran past the time limit and was killed.
    TimedOut,
}

/// The outcome of a `cargo check` from what waiting on it gave: `None` when the
/// time limit passed, else whether its exit status was a success.
pub fn check_outcome(exited: Option<bool>) -> (r: CheckOutcome)
    ensures
        r == match exited {
            None => CheckOutcome::TimedOut,
            Some(true) => CheckOutcome::Succeeded,
            Some(false) => CheckOutcome::Failed,
        },
{
    match exited {
        None => CheckOutcome::TimedOut,
        Some(true) => CheckOutcome::Succeeded,
        Some(false) => CheckOutcome::Failed,
    }
}

/// The code to exit with after a compiler exited with `success` and `code`:
/// none after a success, else its own code, or 42 when it reported none.
pub fn failure_exit_code(success: bool, code: Option<i32>) -> (r: Option<i32>)
    ensures
        r == (if success {
            None
        } else {
            Some(
                match code {
                    Some(c) => c,
                    None => DEFAULT_FAILURE_CODE,
                },
            )
        }),
{
    if success {
        None
    } else {
        match code {
            Some(c) => Some(c),
            None => Some(DEFAULT_FAILURE_CODE),
        }
    }
}

/// Some value of `--crate-type` names a library kind.
pub open spec fn spec_crate_type_lib(args: Seq<Seq<char>>) -> bool {
    exists|k: int|
        0 <= k < flag_candidates(args, "--crate-type"@).len() && spec_is_lib_str(
            #[trigger] flag_candidates(args, "--crate-type"@)[k],
        )
}

/// Whether rustc is asked to build a library: some value of `--crate-type`
/// (before any `--`) is `lib`, `rlib` or `staticlib`.
pub fn is_crate_type_lib(args: &Vec<String>) -> (r: bool)
    ensures
        r == spec_crate_type_lib(args.deep_view()),
{
    let r = any_arg_flag(args, "--crate-type", TargetKind::is_lib_str);
    proof {
        let c = flag_candidates(args.deep_view(), "--crate-type"@);
        if r {
            let k = choose|k: int|
                0 <= k < c.len() && crate::args::accepted_by(TargetKind::is_lib_str, #[trigger] c[k]);
            assert(spec_is_lib_str(c[k]));
        } else {
            assert forall|k: int| 0 <= k < c.len() implies !spec_is_lib_str(#[trigger] c[k]) by {
                assert(crate::args::rejected_by(TargetKind::is_lib_str, c[k]));
            }
        }
    }
    r
}

/// Whether the crate being built is the user's own: cargo names it by a
/// relative path to its first `.rs` file. Without a `.rs` argument it is not.
/// Which paths count as relative is the platform's matter, except that a file
/// name without any separator is relative everywhere.
pub fn is_target_crate(args: &Vec<String>) -> (r: bool)
    ensures
        r ==> spec_first_rs_arg(args.deep_view()) is Some,
        spec_first_rs_arg(args.deep_view()) matches Some(entry) && no_separator(entry) ==> r,
        spec_first_rs_arg(args.deep_view()) matches Some(entry) && plainly_relative(entry) ==> r,
{
    match get_first_arg_with_rs_suffix(args) {
        Some(entry) => path_is_relative(entry.as_str()),
        None => false,
    }
}

/// Whether rustc is invoked for the target platform: cargo passes `--target`
/// only for such crates, never for build scripts and proc macros.
pub fn contains_target_flag(args: &Vec<String>) -> (r: bool)
    ensures
        r == (spec_flag_value(args.deep_view(), "--target"@) is Some),
{
    get_arg_flag_value(args, "--target").is_some()
}

/// Whether this rustc invocation builds the user's own crate for the target
/// platform, the crate that fdep analyses.
pub fn is_direct_target(args: &Vec<String>) -> (r: bool)
    ensures
        r ==> spec_flag_value(args.deep_view(), "--target"@) is Some,
        r ==> spec_first_rs_arg(args.deep_view()) is Some,
        spec_flag_value(args.deep_view(), "--target"@) is Some ==> (spec_first_rs_arg(
            args.deep_view(),
        ) matches Some(entry) && no_separator(entry) ==> r),
        spec_flag_value(args.deep_view(), "--target"@) is Some ==> (spec_first_rs_arg(
            args.deep_view(),
        ) matches Some(entry) && plainly_relative(entry) ==> r),
{
    contains_target_flag(args) && is_target_crate(args)
}

/// Which programs run for one rustc invocation.
#[derive(Clone, Copy, Debug, PartialEq, Eq, Structural)]
pub struct RustcPlan {
    /// Run fdep on the crate.
    pub run_fdep: bool,
    /// Run the real compiler, which builds what fdep does not.
    pub run_rustc: bool,
}

/// The programs to run for a rustc invocation with `args`, given whether it
/// builds the user's crate: fdep for the user's crate; the compiler for every
/// other crate, and for the user's crate too when it is a library, since later
/// crates link against it.
pub fn plan_rustc_wrapper(args: &Vec<String>, direct_target: bool) -> (r: RustcPlan)
    ensures
        r.run_fdep == direct_target,
        r.run_rustc == (!direct_target || spec_crate_type_lib(args.deep_view())),
{
    let run_rustc = !direct_target || is_crate_type_lib(args);
    RustcPlan { run_fdep: direct_target, run_rustc }
}

/// The arguments for fdep when cargo runs the driver in place of rustc: the
/// rustc arguments after the driver and `rustc`, then those that `cargo fdep`
/// handed down as the JSON text `fdep_args_json`.
pub open spec fn spec_fdep_command_args(args: Seq<Seq<char>>, fdep_args_json: Seq<char>) -> Option<
    Seq<Seq<char>>,
> {
    match parse_json_string_array(fdep_args_json) {
        Some(extra) => Some(drop_n(args, 2) + extra),
        None => None,
    }
}

/// The arguments for fdep: the rustc arguments after the driver and `rustc`,
/// followed by those decoded from `fdep_args_json`.
pub fn fdep_command_args(args: &Vec<String>, fdep_args_json: &str) -> (r: Result<
    Vec<String>,
    FdepError,
>)
    ensures
        r is Ok <==> spec_fdep_command_args(args.deep_view(), fdep_args_json@) is Some,
        r matches Ok(v) ==> spec_fdep_command_args(args.deep_view(), fdep_args_json@) == Some(
            v.deep_view(),
        ),
        r matches Err(e) ==> e == FdepError::DeserializeArgs,
{
    let extra = match decode_arg_list(fdep_args_json) {
        Ok(v) => v,
        Err(e) => {
            return Err(e);
        },
    };
    let mut r = args_after(args, 2);
    copy_range(&extra, 0, extra.len(), &mut r);
    assert(extra.deep_view().subrange(0, extra.len() as int) =~= extra.deep_view());
    Ok(r)
}

/// The compiler to run and its arguments: `sccache` when it is installed, with
/// every argument after the driver (so that it sees `rustc` first), else plain
/// `rustc` with the arguments after the driver and `rustc`.
pub fn rustc_command(args: &Vec<String>, sccache: &Option<String>) -> (r: (String, Vec<String>))
    ensures
        match sccache {
            Some(path) => r.0@ == path@ && r.1.deep_view() == drop_n(args.deep_view(), 1),
            None => r.0@ == "rustc"@ && r.1.deep_view() == drop_n(args.deep_view(), 2),
        },
{
    match sccache {
        Some(path) => (owned(path.as_str()), args_after(args, 1)),
        None => (owned("rustc"), args_after(args, 2)),
    }
}

/// The message shown when fdep and rustc come from different sysroots.
pub open spec fn spec_sysroot_message(rustc_sysroot: Seq<char>, fdep_sysroot: Seq<char>) -> Seq<
    char,
> {
    "fdep was built for a different sysroot than the rustc in your current toolchain.\nMake sure you use the same toolchain to run fdep that you used to build it!\nrustc sysroot: `"@
        + rustc_sysroot + "`\nfdep sysroot: `"@ + fdep_sysroot + "`"@
}

/// The message shown when fdep and rustc come from different sysroots.
pub fn sysroot_message(rustc_sysroot: &str, fdep_sysroot: &str) -> (r: String)
    ensures
        r@ == spec_sysroot_message(rustc_sysroot@, fdep_sysroot@),
{
    let mut r = owned(
        "fdep was built for a different sysroot than the rustc in your current toolchain.\nMake sure you use the same toolchain to run fdep that you used to build it!\nrustc sysroot: `",
    );
    r.append(rustc_sysroot);
    r.append("`\nfdep sysroot: `");
    r.append(fdep_sysroot);
    r.append("`");
    r
}

/// The error to report when the sysroots of rustc and fdep differ as paths;
/// none when they are the same path (as they are when the strings are equal).
/// Paths that are single components with no separator and no `:`, and paths in
/// plain form (such as canonical Unix paths), are the same exactly when their
/// strings are, so for them the error is reported exactly when those differ.
pub fn check_sysroots(rustc_sysroot: &str, fdep_sysroot: &str) -> (r: Option<String>)
    ensures
        rustc_sysroot@ == fdep_sysroot@ ==> r is None,
        single_component(rustc_sysroot@) && single_component(fdep_sysroot@) ==> (r is None
            <==> rustc_sysroot@ == fdep_sysroot@),
        normal_path(rustc_sysroot@) && normal_path(fdep_sysroot@) ==> (r is None <==> rustc_sysroot@
            == fdep_sysroot@),
        r matches Some(m) ==> m@ == spec_sysroot_message(rustc_sysroot@, fdep_sysroot@),
{
    if same_path(rustc_sysroot, fdep_sysroot) {
        None
    } else {
        Some(sysroot_message(rustc_sysroot, fdep_sysroot))
    }
}

} // verus!
