use cargo_fdep::analysis::analyze_and_suggest_better_command;
use cargo_fdep::args::{
    any_arg_flag, flag_region_len, get_arg_flag_value, get_first_arg_with_rs_suffix, has_arg_flag,
};
use cargo_fdep::error::FdepError;
use cargo_fdep::json::{decode_arg_list, encode_arg_list};
use cargo_fdep::metadata::{
    find_package_index, get_independant_packages, package_matches, packages_to_process,
    select_first_match, take_selected_package,
    workspace_default_packages, DependencyModel, MetadataModel, PackageModel, TargetModel,
};
use cargo_fdep::plan::{
    check_outcome, check_sysroots, classify_invocation, clean_command_args, failure_exit_code,
    fdep_command_args, is_crate_type_lib, is_direct_target, needs_default_target,
    plan_rustc_wrapper, plan_target, rustc_command, sysroot_message, CheckOutcome, Invocation,
    RustcPlan, TargetStep,
};
use cargo_fdep::target::{check_order, TargetKind};
use cargo_fdep::text::{ends_with, join, starts_with, str_equals};

fn v(xs: &[&str]) -> Vec<String> {
    xs.iter().map(|s| s.to_string()).collect()
}

fn target(name: &str, kinds: &[&str]) -> TargetModel {
    TargetModel { name: name.to_string(), kind: v(kinds) }
}

fn dep(name: &str, local: bool) -> DependencyModel {
    DependencyModel {
        name: name.to_string(),
        source: if local { None } else { Some("registry+https://github.com/rust-lang/crates.io-index".to_string()) },
    }
}

fn package(id: &str, name: &str, manifest: &str, features: usize, deps: Vec<DependencyModel>) -> PackageModel {
    PackageModel {
        id: id.to_string(),
        name: name.to_string(),
        manifest_path: manifest.to_string(),
        feature_count: features,
        targets: vec![target(name, &["lib"])],
        dependencies: deps,
    }
}

#[test]
fn text_helpers() {
    assert!(str_equals("abc", "abc"));
    assert!(!str_equals("abc", "abd"));
    assert!(!str_equals("ab", "abc"));
    assert!(starts_with("--target=x", "--target"));
    assert!(!starts_with("--tar", "--target"));
    assert!(ends_with("src/main.rs", ".rs"));
    assert!(!ends_with("rs", ".rs"));
    assert_eq!(join(&v(&["a", "b", "c"]), "/"), "a/b/c");
    assert_eq!(join(&v(&[]), "/"), "");
    assert_eq!(join(&v(&["only"]), "/"), "only");
}

#[test]
fn lib_strings() {
    assert!(TargetKind::is_lib_str("lib"));
    assert!(TargetKind::is_lib_str("rlib"));
    assert!(TargetKind::is_lib_str("staticlib"));
    assert!(!TargetKind::is_lib_str("dylib"));
    assert!(!TargetKind::is_lib_str("bin"));
    assert!(!TargetKind::is_lib_str(""));
}

#[test]
fn target_kinds() {
    assert_eq!(TargetKind::from_kind_names(&v(&["lib"])), TargetKind::Library);
    assert_eq!(TargetKind::from_kind_names(&v(&["bin"])), TargetKind::Bin);
    assert_eq!(TargetKind::from_kind_names(&v(&["bin", "rlib"])), TargetKind::Library);
    assert_eq!(TargetKind::from_kind_names(&v(&["example", "bin"])), TargetKind::Unknown);
    assert_eq!(TargetKind::from_kind_names(&v(&["test"])), TargetKind::Unknown);
    assert_eq!(TargetKind::from_kind_names(&v(&[])), TargetKind::Unknown);
    assert_eq!(TargetKind::Library.name(), "lib");
    assert_eq!(TargetKind::Bin.name(), "bin");
    assert_eq!(TargetKind::Unknown.name(), "unknown");
    assert_eq!(TargetKind::Library.rank(), 0);
    assert_eq!(TargetKind::Bin.rank(), 1);
    assert_eq!(TargetKind::Unknown.rank(), 2);
}

#[test]
fn libraries_are_checked_before_binaries() {
    let kinds = vec![
        TargetKind::Bin,
        TargetKind::Unknown,
        TargetKind::Library,
        TargetKind::Bin,
        TargetKind::Library,
    ];
    assert_eq!(check_order(&kinds), vec![2, 4, 0, 3, 1]);
    assert_eq!(check_order(&vec![]), Vec::<usize>::new());
}

#[test]
fn flag_presence() {
    assert!(has_arg_flag(&v(&["cargo-fdep", "fdep", "-v"]), "-v"));
    assert!(!has_arg_flag(&v(&["cargo-fdep", "fdep", "--", "-v"]), "-v"));
    assert!(!has_arg_flag(&v(&["cargo-fdep", "fdep", "-vv"]), "-v"));
    assert_eq!(flag_region_len(&v(&["a", "b", "--", "c"])), 2);
    assert_eq!(flag_region_len(&v(&["a", "b"])), 2);
}

#[test]
fn flag_values() {
    let get = |xs: &[&str]| get_arg_flag_value(&v(xs), "--target");
    assert_eq!(get(&["x", "--target", "foo"]), Some("foo".to_string()));
    assert_eq!(get(&["x", "--target=bar"]), Some("bar".to_string()));
    assert_eq!(get(&["x", "--target="]), Some("".to_string()));
    assert_eq!(get(&["x", "--targetx", "--target", "y"]), Some("y".to_string()));
    assert_eq!(get(&["x", "--target"]), None);
    assert_eq!(get(&["x", "--", "--target", "y"]), None);
    assert_eq!(get(&["x", "--target", "--", "y"]), None);
    assert_eq!(get(&["x"]), None);
}

#[test]
fn flag_checks() {
    let any = |xs: &[&str]| any_arg_flag(&v(xs), "--crate-type", TargetKind::is_lib_str);
    assert!(any(&["rustc", "--crate-type", "lib"]));
    assert!(any(&["rustc", "--crate-type=bin", "--crate-type", "rlib"]));
    assert!(!any(&["rustc", "--crate-typeX", "--crate-type", "lib"]));
    assert!(!any(&["rustc", "--crate-type", "bin"]));
    assert!(!any(&["rustc", "--crate-type"]));
    assert!(!any(&["rustc", "--", "--crate-type", "lib"]));
    assert!(is_crate_type_lib(&v(&["rustc", "--crate-type=staticlib"])));
    assert!(!is_crate_type_lib(&v(&["rustc", "--crate-type=proc-macro"])));
}

#[test]
fn first_rs_argument() {
    let args = v(&["rustc", "--edition", "2021", "src/main.rs", "other.rs"]);
    assert_eq!(get_first_arg_with_rs_suffix(&args), Some("src/main.rs".to_string()));
    assert_eq!(get_first_arg_with_rs_suffix(&v(&["rustc", "--", "a.rs"])), None);
    assert_eq!(get_first_arg_with_rs_suffix(&v(&["rustc", "x.r"])), None);
}

#[test]
fn flags_ignore_what_follows_the_separator() {
    let before = ["cargo-fdep", "fdep", "--target", "t1", "--crate-type", "lib"];
    let mut with_rest: Vec<&str> = before.to_vec();
    with_rest.extend(["--", "--target", "t2", "-v", "--crate-type", "bin", "z.rs"]);
    let a = v(&before);
    let b = v(&with_rest);
    assert_eq!(get_arg_flag_value(&a, "--target"), get_arg_flag_value(&b, "--target"));
    assert_eq!(has_arg_flag(&a, "-v"), has_arg_flag(&b, "-v"));
    assert_eq!(is_crate_type_lib(&a), is_crate_type_lib(&b));
    assert_eq!(get_first_arg_with_rs_suffix(&a), get_first_arg_with_rs_suffix(&b));
}

#[test]
fn invocation_modes() {
    assert_eq!(classify_invocation(&v(&["cargo-fdep"])), Invocation::MissingSubcommand);
    assert_eq!(classify_invocation(&v(&["cargo-fdep", "fdep"])), Invocation::CargoFdep);
    assert_eq!(classify_invocation(&v(&["cargo-fdep", "/usr/bin/rustc", "-"])), Invocation::RustcWrapper);
    assert_eq!(classify_invocation(&v(&["cargo-fdep", "rustc"])), Invocation::RustcWrapper);
    assert_eq!(classify_invocation(&v(&["cargo-fdep", "build"])), Invocation::UnknownSubcommand);
}

#[test]
fn check_step_for_binary() {
    let args = v(&["cargo-fdep", "fdep", "--release", "--", "--out", "x"]);
    assert!(needs_default_target(&args));
    match plan_target(&target("app", &["bin"]), &args, true, &Some("x86_64-unknown-linux-gnu".to_string())) {
        TargetStep::Check { clean_package, cargo_args, fdep_args } => {
            assert!(!clean_package);
            assert_eq!(
                cargo_args,
                v(&["check", "--bin", "app", "-q", "--release", "--target", "x86_64-unknown-linux-gnu"])
            );
            assert_eq!(fdep_args, v(&["--out", "x"]));
        }
        other => panic!("unexpected step {:?}", other),
    }
}

#[test]
fn check_step_for_library_with_target() {
    let args = v(&["cargo-fdep", "fdep", "--target", "wasm32-unknown-unknown"]);
    assert!(!needs_default_target(&args));
    match plan_target(&target("core", &["lib", "rlib"]), &args, false, &None) {
        TargetStep::Check { clean_package, cargo_args, fdep_args } => {
            assert!(clean_package);
            assert_eq!(cargo_args, v(&["check", "--lib", "--target", "wasm32-unknown-unknown"]));
            assert!(fdep_args.is_empty());
        }
        other => panic!("unexpected step {:?}", other),
    }
}

#[test]
fn check_step_for_unsupported_target() {
    let args = v(&["cargo-fdep", "fdep"]);
    match plan_target(&target("ex", &["example", "custom"]), &args, true, &Some("h".to_string())) {
        TargetStep::Unsupported { message } => {
            assert_eq!(message, "Target example/custom:ex is not supported");
        }
        other => panic!("unexpected step {:?}", other),
    }
}

#[test]
fn clean_command() {
    assert_eq!(
        clean_command_args("mycrate", "x86_64-unknown-linux-gnu"),
        v(&["clean", "-p", "mycrate", "--target", "x86_64-unknown-linux-gnu"])
    );
}

#[test]
fn outcomes_and_exit_codes() {
    assert_eq!(check_outcome(None), CheckOutcome::TimedOut);
    assert_eq!(check_outcome(Some(true)), CheckOutcome::Succeeded);
    assert_eq!(check_outcome(Some(false)), CheckOutcome::Failed);
    assert_eq!(failure_exit_code(true, Some(0)), None);
    assert_eq!(failure_exit_code(false, Some(3)), Some(3));
    assert_eq!(failure_exit_code(false, None), Some(42));
}

#[test]
fn fdep_arguments_round_trip() {
    let forwarded = v(&["--out", "a b", "q\"uote", "back\\slash", "tab\there", "ünï"]);
    let text = encode_arg_list(&forwarded).unwrap();
    assert_eq!(text, r#"["--out","a b","q\"uote","back\\slash","tab\there","ünï"]"#);
    assert_eq!(decode_arg_list(&text).unwrap(), forwarded);
    let rustc_args = v(&["cargo-fdep", "rustc", "--crate-name", "x", "src/lib.rs"]);
    let mut expected = v(&["--crate-name", "x", "src/lib.rs"]);
    expected.extend(forwarded.clone());
    assert_eq!(fdep_command_args(&rustc_args, &text).unwrap(), expected);
    assert_eq!(encode_arg_list(&v(&[])).unwrap(), "[]");
}

#[test]
fn fdep_arguments_undecodable() {
    let rustc_args = v(&["cargo-fdep", "rustc"]);
    assert_eq!(fdep_command_args(&rustc_args, "not json"), Err(FdepError::DeserializeArgs));
    assert_eq!(decode_arg_list("[1, 2]"), Err(FdepError::DeserializeArgs));
}

#[test]
fn compiler_commands() {
    let args = v(&["cargo-fdep", "rustc", "--crate-name", "x"]);
    let (program, rest) = rustc_command(&args, &Some("/usr/bin/sccache".to_string()));
    assert_eq!(program, "/usr/bin/sccache");
    assert_eq!(rest, v(&["rustc", "--crate-name", "x"]));
    let (program, rest) = rustc_command(&args, &None);
    assert_eq!(program, "rustc");
    assert_eq!(rest, v(&["--crate-name", "x"]));
}

#[test]
fn rustc_wrapper_plans() {
    let lib = v(&["cargo-fdep", "rustc", "--crate-type", "lib", "src/lib.rs", "--target", "t"]);
    let bin = v(&["cargo-fdep", "rustc", "--crate-type", "bin", "src/main.rs", "--target", "t"]);
    assert_eq!(plan_rustc_wrapper(&lib, true), RustcPlan { run_fdep: true, run_rustc: true });
    assert_eq!(plan_rustc_wrapper(&bin, true), RustcPlan { run_fdep: true, run_rustc: false });
    assert_eq!(plan_rustc_wrapper(&bin, false), RustcPlan { run_fdep: false, run_rustc: true });
}

#[test]
fn direct_targets() {
    assert!(is_direct_target(&v(&["cargo-fdep", "rustc", "src/lib.rs", "--target", "t"])));
    assert!(is_direct_target(&v(&["cargo-fdep", "rustc", "src/lib.rs", "--target=t"])));
    assert!(!is_direct_target(&v(&["cargo-fdep", "rustc", "/home/u/.cargo/x/src/lib.rs", "--target", "t"])));
    assert!(!is_direct_target(&v(&["cargo-fdep", "rustc", "src/lib.rs"])));
    assert!(is_direct_target(&v(&["cargo-fdep", "rustc", "main.rs", "--target", "t"])));
    assert!(!is_direct_target(&v(&["cargo-fdep", "rustc", "--target", "t"])));
}

#[test]
fn sysroots() {
    assert_eq!(check_sysroots("/opt/rust", "/opt/rust"), None);
    assert_eq!(check_sysroots("/opt/rust", "/opt/rust/"), None);
    let expected = "fdep was built for a different sysroot than the rustc in your current toolchain.\nMake sure you use the same toolchain to run fdep that you used to build it!\nrustc sysroot: `/a`\nfdep sysroot: `/b`";
    assert_eq!(check_sysroots("/a", "/b"), Some(expected.to_string()));
    assert_eq!(sysroot_message("/a", "/b"), expected);
    assert!(check_sysroots("stable", "nightly").is_some());
    assert_eq!(check_sysroots("stable", "stable"), None);
}

fn workspace() -> MetadataModel {
    MetadataModel {
        packages: vec![
            package("app 0.1.0 (path+file:///ws/app)", "app", "/ws/app/Cargo.toml", 2, vec![dep("core", true), dep("serde", false)]),
            package("serde 1.0.0 (registry)", "serde", "/reg/serde/Cargo.toml", 5, vec![]),
            package("core 0.1.0 (path+file:///ws/core)", "core", "/ws/core/Cargo.toml", 0, vec![dep("util", false)]),
            package("tool 0.1.0 (path+file:///ws/tool)", "tool", "/ws/tool/Cargo.toml", 0, vec![]),
        ],
        workspace_members: v(&[
            "app 0.1.0 (path+file:///ws/app)",
            "core 0.1.0 (path+file:///ws/core)",
            "tool 0.1.0 (path+file:///ws/tool)",
        ]),
        workspace_default_members: Some(v(&[
            "app 0.1.0 (path+file:///ws/app)",
            "core 0.1.0 (path+file:///ws/core)",
            "tool 0.1.0 (path+file:///ws/tool)",
        ])),
    }
}

#[test]
fn default_packages() {
    assert_eq!(workspace_default_packages(&workspace()), vec![0, 2, 3]);
    let mut only_tool = workspace();
    only_tool.workspace_default_members = Some(v(&["tool 0.1.0 (path+file:///ws/tool)"]));
    assert_eq!(workspace_default_packages(&only_tool), vec![3]);
}

#[test]
fn independent_packages() {
    // `core` is a path dependency of `app`, so only `app` and `tool` are roots.
    assert_eq!(get_independant_packages(&workspace()), vec![0, 3]);
    let mut only_core = workspace();
    only_core.workspace_default_members = Some(v(&["core 0.1.0 (path+file:///ws/core)"]));
    assert_eq!(get_independant_packages(&only_core), vec![2]);
}

#[test]
fn package_selection() {
    let ws = workspace();
    assert_eq!(find_package_index(&ws, &Some("/ws/core/Cargo.toml".to_string()), &None), Ok(Some(2)));
    assert_eq!(find_package_index(&ws, &Some("/elsewhere/Cargo.toml".to_string()), &None), Ok(None));
    assert_eq!(find_package_index(&ws, &None, &Some("/ws/tool".to_string())), Ok(Some(3)));
    assert_eq!(find_package_index(&ws, &None, &Some("/ws".to_string())), Ok(None));
    assert_eq!(find_package_index(&ws, &None, &None), Err(FdepError::CurrentDirUnavailable));
    let empty = MetadataModel { packages: vec![], workspace_members: vec![], workspace_default_members: None };
    assert_eq!(find_package_index(&empty, &None, &None), Ok(None));
    assert_eq!(package_matches("", &None, &Some("/ws".to_string())), Err(FdepError::ManifestWithoutParent));
    assert_eq!(package_matches("/ws/a/Cargo.toml", &None, &Some("/ws/a".to_string())), Ok(true));
}

#[test]
fn processed_packages() {
    let ws = workspace();
    assert_eq!(packages_to_process(&ws, Some(2)), vec![2]);
    assert_eq!(packages_to_process(&ws, None), vec![0, 3]);
}

#[test]
fn manifests_at_the_root_and_bare() {
    assert_eq!(package_matches("/Cargo.toml", &None, &Some("/".to_string())), Ok(true));
    assert_eq!(package_matches("/Cargo.toml", &None, &Some("/ws".to_string())), Ok(false));
    assert_eq!(package_matches("Cargo.toml", &None, &Some("/ws".to_string())), Ok(false));
    let mut ws = workspace();
    ws.packages[1].manifest_path = "/Cargo.toml".to_string();
    assert_eq!(find_package_index(&ws, &None, &Some("/".to_string())), Ok(Some(1)));
}

#[test]
fn selected_package_is_taken_out() {
    let mut ws = workspace();
    let taken = take_selected_package(&mut ws, Some(1)).unwrap();
    assert_eq!(taken.name, "serde");
    assert_eq!(ws.packages.len(), 3);
    assert_eq!(ws.packages[1].name, "core");
    let mut ws = workspace();
    assert!(take_selected_package(&mut ws, None).is_none());
    assert_eq!(ws.packages.len(), 4);
}

#[test]
fn plain_paths() {
    assert_eq!(package_matches("/ws/a/Cargo.toml", &Some("/ws/b/Cargo.toml".to_string()), &None), Ok(false));
    assert_eq!(package_matches("/ws/a/Cargo.toml", &None, &Some("/ws/b".to_string())), Ok(false));
    assert!(check_sysroots("/home/u/.rustup/toolchains/stable", "/home/u/.rustup/toolchains/nightly").is_some());
    assert!(is_direct_target(&v(&["cargo-fdep", "rustc", "--crate-name", "foo", "src/lib.rs", "--crate-type", "lib", "--target", "x86_64-unknown-linux-gnu"])));
}

#[test]
fn first_match_selection() {
    assert_eq!(select_first_match(&vec![Ok(false), Ok(true), Err(FdepError::ManifestWithoutParent)]), Ok(Some(1)));
    assert_eq!(select_first_match(&vec![Ok(false), Err(FdepError::ManifestWithoutParent), Ok(true)]), Err(FdepError::ManifestWithoutParent));
    assert_eq!(select_first_match(&vec![Ok(false)]), Ok(None));
}

#[test]
fn analysis_with_suggestions() {
    let ws = workspace();
    let a = analyze_and_suggest_better_command(&ws, &v(&["cargo-fdep", "fdep"]));
    assert!(a.has_features && a.has_workspace && !a.has_tests);
    assert_eq!(
        a.suggestions,
        v(&[
            "--all-features (to analyze all feature-gated code)",
            "--all-targets (to include tests, examples, benches)",
            "--workspace (to analyze all workspace members)",
        ])
    );
    assert_eq!(a.optimal_command, Some("cargo fdep --workspace --all-features --all-targets".to_string()));
    assert_eq!(a.packages_analyzed, 4);
    assert_eq!(a.total_features, Some(7));
    assert_eq!(a.workspace_members, Some(3));
}

#[test]
fn analysis_with_tests() {
    let mut ws = workspace();
    ws.packages[3].targets.push(target("it", &["test"]));
    let a = analyze_and_suggest_better_command(&ws, &v(&["cargo-fdep", "fdep", "--workspace", "--all-features"]));
    assert!(a.has_tests);
    assert_eq!(
        a.suggestions,
        v(&["--all-targets (to include tests, examples, benches)", "--tests (to analyze test functions)"])
    );
    assert_eq!(a.optimal_command, Some("cargo fdep --all-targets".to_string()));
}

#[test]
fn analysis_with_optimal_flags() {
    let ws = MetadataModel {
        packages: vec![package("p 0.1.0", "p", "/p/Cargo.toml", 0, vec![])],
        workspace_members: v(&["p 0.1.0"]),
        workspace_default_members: Some(v(&["p 0.1.0"])),
    };
    let a = analyze_and_suggest_better_command(&ws, &v(&["cargo-fdep", "fdep", "--all-targets"]));
    assert!(a.suggestions.is_empty());
    assert_eq!(a.optimal_command, None);
    assert_eq!(a.total_features, None);
    assert_eq!(a.workspace_members, None);
    assert_eq!(a.packages_analyzed, 1);
}
