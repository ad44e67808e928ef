use cargo_watt::compile::{
    cargo_build, compile, normalized, rust_flags, wasm_opt, wasm_path, wasm_strip, BuildError, Step,
};
use cargo_watt::files::{copy_action, copy_all, CopyAction, EntryKind};
use cargo_watt::options::{CompilationOptions, Input, MissingTool, Options, Source};
use cargo_watt::process::{cargo, cargo_fmt, clone_git_into, Outcome};
use cargo_watt::propagate::{is_proc_macro, names_at, patch, Package};
use cargo_watt::registry::{
    crate_url, decimal, download_crate, download_path, download_url, status_message,
    unpacked_path, RegistryError, Release,
};
use cargo_watt::tempdir::{temp_name, Tempdir};
use cargo_watt::verify::{check_artifact_path, file_name, is_wasm_file, same_bytes, verify, VerificationError};

fn strings(items: &[&str]) -> Vec<String> {
    items.iter().map(|s| s.to_string()).collect()
}

fn options(no_wasm_strip: bool, no_wasm_opt: bool) -> CompilationOptions {
    CompilationOptions { no_wasm_strip, no_wasm_opt, compress: false }
}

fn package(name: &str, version: &str, kinds: &[&[&str]]) -> Package {
    Package {
        name: name.to_string(),
        version: version.to_string(),
        target_kinds: kinds.iter().map(|k| strings(k)).collect(),
    }
}

#[test]
fn input_crate_names_a_registry_package() {
    let input = Input::crate_("serde_derive".to_string());
    assert_eq!(input.crate_.as_deref(), Some("serde_derive"));
    assert_eq!(input.git, None);
    assert_eq!(input.path, "");
    assert!(matches!(input.source(), Source::Registry(name) if name == "serde_derive"));
}

#[test]
fn input_source_prefers_git_then_registry() {
    let both = Input { path: ".".to_string(), git: Some("g".to_string()), crate_: Some("c".to_string()) };
    assert!(matches!(both.source(), Source::Git(url) if url == "g"));
    let local = Input { path: "here".to_string(), git: None, crate_: None };
    assert!(matches!(local.source(), Source::Local(path) if path == "here"));
}

#[test]
fn compilation_options_verify_wants_the_tools_that_are_used() {
    assert_eq!(options(false, false).verify(true, true), Ok(()));
    assert_eq!(options(false, false).verify(false, true), Err(MissingTool::WasmStrip));
    assert_eq!(options(false, false).verify(false, false), Err(MissingTool::WasmStrip));
    assert_eq!(options(false, false).verify(true, false), Err(MissingTool::WasmOpt));
    assert_eq!(options(true, false).verify(false, true), Ok(()));
    assert_eq!(options(true, true).verify(false, false), Ok(()));
    assert_eq!(options(false, true).verify(true, false), Ok(()));
    assert_eq!(MissingTool::WasmStrip.message(), "cannot find wasm-strip, try --no-wasm-strip");
    assert_eq!(MissingTool::WasmOpt.message(), "cannot find wasm-opt, try --no-wasm-opt");
}

#[test]
fn options_hand_out_their_parts() {
    let input = Input { path: "p".to_string(), git: None, crate_: None };
    let build = Options::Build {
        input: input.clone(),
        compilation_options: options(true, false),
        only_copy_essential: false,
        overwrite: false,
        keep_tmp: true,
    };
    assert_eq!(build.input().path, "p");
    assert_eq!(*build.compilation_options(), options(true, false));
    assert!(build.keep_tmp());
    let verify = Options::Verify { file: "a.wasm".to_string(), input, compilation_options: options(false, true) };
    assert_eq!(verify.input().path, "p");
    assert_eq!(*verify.compilation_options(), options(false, true));
    assert!(!verify.keep_tmp());
    let patch = Options::Patch { path: ".".to_string(), compilation_options: options(true, true) };
    assert_eq!(*patch.compilation_options(), options(true, true));
    assert!(!patch.keep_tmp());
}

#[test]
fn tempdir_is_named_at_random_below_its_parent() {
    let mut dir = Tempdir::new("/tmp");
    assert!(dir.delete());
    let path = dir.path().to_string();
    assert!(path.starts_with("/tmp/.tmp"));
    assert_eq!(path.len(), "/tmp/.tmp".len() + 7);
    assert!(path["/tmp/.tmp".len()..].chars().all(|c| c.is_ascii_alphanumeric()));
    dir.set_delete(false);
    assert!(!dir.delete());
    assert_eq!(dir.path(), path);
    dir.set_delete(true);
    assert!(dir.delete());
    let name = temp_name();
    assert_eq!(name.len(), 11);
    assert!(name.starts_with(".tmp"));
}

#[test]
fn invocations_say_what_is_run() {
    let fmt = cargo_fmt("dir");
    assert_eq!(fmt.program, "cargo");
    assert_eq!(fmt.args, strings(&["fmt"]));
    assert_eq!(fmt.dir.as_deref(), Some("dir"));
    assert!(fmt.env.is_empty());
    let any = cargo("dir", strings(&["check", "-q"]));
    assert_eq!(any.args, strings(&["check", "-q"]));
    let git = clone_git_into("target", "https://example.com/r");
    assert_eq!(git.program, "git");
    assert_eq!(git.args, strings(&["clone", "https://example.com/r", "target"]));
    assert_eq!(git.dir, None);
    let build = cargo_build("dir", "--flag");
    assert_eq!(build.program, "cargo");
    assert_eq!(
        build.args,
        strings(&["build", "--target", "wasm32-unknown-unknown", "--release", "--all-features"])
    );
    assert_eq!(build.env, vec![("RUSTFLAGS".to_string(), "--flag".to_string())]);
    assert_eq!(build.dir.as_deref(), Some("dir"));
    let strip = wasm_strip("a.wasm");
    assert_eq!((strip.program.as_str(), strip.args), ("wasm-strip", strings(&["a.wasm"])));
    let opt = wasm_opt("a.wasm");
    assert_eq!((opt.program.as_str(), opt.args), ("wasm-opt", strings(&["a.wasm", "-o", "a.wasm", "-Os"])));
}

#[test]
fn outcome_check_carries_the_error_stream() {
    assert!(Outcome { success: true, stderr: "noise".to_string() }.check().is_ok());
    let failure = Outcome { success: false, stderr: "broken".to_string() }.check().unwrap_err();
    assert_eq!(failure.stderr, "broken");
}

#[test]
fn rust_flags_remap_cargo_home() {
    assert_eq!(rust_flags(Some("/home/me/.cargo")), "--remap-path-prefix /home/me/.cargo=/cargo_home");
    assert_eq!(rust_flags(None), "");
}

#[test]
fn wasm_path_uses_the_normalized_name() {
    assert_eq!(normalized("my-proc-macro"), "my_proc_macro");
    assert_eq!(normalized("plain"), "plain");
    assert_eq!(normalized(""), "");
    assert_eq!(
        wasm_path(None, "/pkg", "my-macro"),
        "/pkg/target/wasm32-unknown-unknown/release/my_macro.wasm"
    );
    assert_eq!(
        wasm_path(Some("/elsewhere"), "/pkg", "my-macro"),
        "/elsewhere/wasm32-unknown-unknown/release/my_macro.wasm"
    );
}

fn walk(options: &CompilationOptions) -> Vec<Step> {
    let mut steps = vec![Step::first()];
    loop {
        let next = steps[steps.len() - 1].next(true, options).unwrap();
        if next == Step::Done {
            return steps;
        }
        steps.push(next);
    }
}

#[test]
fn steps_follow_the_options() {
    let start = vec![Step::Modify, Step::Compile, Step::Locate];
    let then = |rest: &[Step]| [start.clone(), rest.to_vec()].concat();
    assert_eq!(walk(&options(false, false)), then(&[Step::Strip, Step::Optimize, Step::Read]));
    assert_eq!(walk(&options(true, false)), then(&[Step::Optimize, Step::Read]));
    assert_eq!(walk(&options(false, true)), then(&[Step::Strip, Step::Read]));
    assert_eq!(walk(&options(true, true)), then(&[Step::Read]));
    assert_eq!(Step::Done.next(true, &options(false, false)), Ok(Step::Done));
    assert_eq!(Step::Done.next(false, &options(false, false)), Ok(Step::Done));
}

#[test]
fn compile_lists_the_steps_of_a_build() {
    let start = vec![Step::Modify, Step::Compile, Step::Locate];
    let then = |rest: &[Step]| [start.clone(), rest.to_vec()].concat();
    assert_eq!(compile(&options(false, false)), then(&[Step::Strip, Step::Optimize, Step::Read]));
    assert_eq!(compile(&options(true, false)), then(&[Step::Optimize, Step::Read]));
    assert_eq!(compile(&options(false, true)), then(&[Step::Strip, Step::Read]));
    assert_eq!(compile(&options(true, true)), then(&[Step::Read]));
    assert_eq!(compile(&options(true, true)), walk(&options(true, true)));
}

#[test]
fn a_failed_step_ends_the_build() {
    let o = options(false, false);
    assert_eq!(Step::Modify.next(false, &o), Err(BuildError::Modify));
    assert_eq!(Step::Compile.next(false, &o), Err(BuildError::Cargo));
    assert_eq!(Step::Locate.next(false, &o), Err(BuildError::ArtifactNotFound));
    assert_eq!(Step::Strip.next(false, &o), Err(BuildError::Strip));
    assert_eq!(Step::Optimize.next(false, &o), Err(BuildError::Optimize));
    assert_eq!(Step::Read.next(false, &o), Err(BuildError::Read));
    assert_eq!(BuildError::Cargo.message(), "cargo failed");
    assert_eq!(BuildError::Strip.message(), "wasm-strip failed");
    assert_eq!(BuildError::Optimize.message(), "wasm-opt failed");
    assert_eq!(BuildError::Read.message(), "cannot read compiled wasm");
    assert_eq!(BuildError::Modify.message(), "failed to make modifications to crate");
    assert_eq!(BuildError::ArtifactNotFound.message(), "cannot find compiled wasm");
}

#[test]
fn only_wasm_files_are_verified() {
    assert!(is_wasm_file("a.wasm"));
    assert!(is_wasm_file("dir/my_macro.wasm"));
    assert!(is_wasm_file("dir/..wasm"));
    assert!(!is_wasm_file(".wasm"));
    assert!(!is_wasm_file("dir/.wasm"));
    assert!(!is_wasm_file("a.wasm.deflate"));
    assert!(!is_wasm_file("a.wast"));
    assert!(!is_wasm_file("awasm"));
    assert!(!is_wasm_file(""));
    assert!(check_artifact_path("a.wasm").is_ok());
    let e = check_artifact_path("a.txt").unwrap_err();
    assert_eq!(e.message(), "'a.txt' is not a wasm file");
}

#[test]
fn verify_compares_byte_for_byte() {
    assert!(same_bytes(&vec![], &vec![]));
    assert!(same_bytes(&vec![1, 2, 3], &vec![1, 2, 3]));
    assert!(!same_bytes(&vec![1, 2, 3], &vec![1, 2]));
    assert!(!same_bytes(&vec![1, 2, 3], &vec![1, 2, 4]));
    assert!(verify("out/a.wasm", "a", &vec![0, 97, 115, 109], &vec![0, 97, 115, 109]).is_ok());
    assert!(verify("out/a.wasm", "a", &vec![0, 97, 115, 109], &vec![0, 97, 115, 109]).is_ok());
    for built in [vec![0, 97, 115], vec![0, 97, 115, 110], vec![]] {
        match verify("out/a.wasm", "my-macro", &vec![0, 97, 115, 109], &built) {
            Err(e @ VerificationError::Mismatch { .. }) => assert_eq!(
                e.message(),
                "'a.wasm' wasn't compiled from 'my-macro' or the build wasn't reproducible"
            ),
            _ => panic!("the modules differ"),
        }
    }
}

#[test]
fn verify_refuses_a_path_that_is_no_wasm_file() {
    for built in [vec![1, 2, 3], vec![1, 2, 4], vec![]] {
        match verify("out/demo.txt", "demo", &vec![1, 2, 3], &built) {
            Err(e @ VerificationError::NotWasm { .. }) => {
                assert_eq!(e.message(), "'out/demo.txt' is not a wasm file")
            }
            _ => panic!("the path is no wasm file"),
        }
    }
    assert!(matches!(
        verify("out/.wasm", "demo", &vec![], &vec![]),
        Err(VerificationError::NotWasm { .. })
    ));
}

#[test]
fn steps_stand_for_their_calls() {
    let call = |step: Step| step.invocation("/pkg", "--flag", "/pkg/m.wasm");
    let build = call(Step::Compile).unwrap();
    assert_eq!(build.program, "cargo");
    assert_eq!(build.args, cargo_build("/pkg", "--flag").args);
    assert_eq!(build.env, vec![("RUSTFLAGS".to_string(), "--flag".to_string())]);
    assert_eq!(build.dir.as_deref(), Some("/pkg"));
    let strip = call(Step::Strip).unwrap();
    assert_eq!((strip.program.as_str(), strip.args), ("wasm-strip", strings(&["/pkg/m.wasm"])));
    let opt = call(Step::Optimize).unwrap();
    assert_eq!(
        (opt.program.as_str(), opt.args),
        ("wasm-opt", strings(&["/pkg/m.wasm", "-o", "/pkg/m.wasm", "-Os"]))
    );
    for step in [Step::Modify, Step::Locate, Step::Read, Step::Done] {
        assert!(call(step).is_none());
    }
}

#[test]
fn file_name_is_the_last_component() {
    assert_eq!(file_name("a/b/c.wasm"), "c.wasm");
    assert_eq!(file_name("c.wasm"), "c.wasm");
    assert_eq!(file_name("a/"), "");
    assert_eq!(file_name(""), "");
}

#[test]
fn is_proc_macro_looks_at_every_target() {
    assert!(is_proc_macro(&package("a", "1.0.0", &[&["proc-macro"]])));
    assert!(is_proc_macro(&package("a", "1.0.0", &[&["lib"], &["test", "proc-macro"]])));
    assert!(!is_proc_macro(&package("a", "1.0.0", &[&["lib"], &["bin"]])));
    assert!(!is_proc_macro(&package("a", "1.0.0", &[])));
    assert!(!is_proc_macro(&package("a", "1.0.0", &[&[]])));
    assert!(!is_proc_macro(&package("proc-macro", "1.0.0", &[&["proc_macro"]])));
}

#[test]
fn patch_rebuilds_each_macro_package_once() {
    let packages = vec![
        package("app", "0.1.0", &[&["bin"]]),
        package("serde_derive", "1.0.0", &[&["proc-macro"]]),
        package("serde", "1.0.0", &[&["lib"]]),
        package("serde_derive", "1.0.0", &[&["proc-macro"]]),
        package("serde_derive", "1.0.1", &[&["proc-macro"]]),
        package("thiserror-impl", "1.0.0", &[&["proc-macro"]]),
        package("serde", "1.0.0", &[&["proc-macro"]]),
    ];
    let places = patch(&packages);
    assert_eq!(places, vec![1, 4, 5, 6]);
    assert_eq!(names_at(&packages, &places), vec!["serde_derive", "serde_derive", "thiserror-impl", "serde"]);
}

#[test]
fn patch_of_a_workspace_without_macro_packages_rebuilds_nothing() {
    let packages = vec![package("app", "0.1.0", &[&["bin"]]), package("serde", "1.0.0", &[&["lib"]])];
    let places = patch(&packages);
    assert!(places.is_empty());
    assert!(patch(&Vec::new()).is_empty());
    let names = names_at(&packages, &places);
    let text = "[workspace]\n\n[patch.crates-io]\nold = { path = \"x\" }\n";
    assert_eq!(cargo_watt::rewrite::add_patches(text, &names).unwrap(), text);
    let bare = "[workspace]\n";
    assert_eq!(cargo_watt::rewrite::add_patches(bare, &names).unwrap(), bare);
}

#[test]
fn download_path_takes_the_first_release_that_stands() {
    let release = |yanked: Option<bool>, path: Option<&str>| Release { yanked, dl_path: path.map(String::from) };
    assert_eq!(
        download_path(&vec![release(Some(true), Some("/a")), release(Some(false), Some("/b")), release(None, Some("/c"))]),
        Ok("/b".to_string())
    );
    assert_eq!(download_path(&vec![release(None, Some("/c"))]), Ok("/c".to_string()));
    assert_eq!(download_path(&vec![release(Some(true), Some("/a"))]), Err(RegistryError::NothingPublished));
    assert_eq!(download_path(&Vec::new()), Err(RegistryError::NothingPublished));
    assert_eq!(
        download_path(&vec![release(Some(false), None), release(Some(false), Some("/b"))]),
        Err(RegistryError::MissingPath)
    );
    assert_eq!(
        download_crate(&vec![release(Some(true), Some("/a")), release(None, Some("/api/b"))]),
        Ok("https://crates.io/api/b".to_string())
    );
    assert_eq!(download_crate(&Vec::new()), Err(RegistryError::NothingPublished));
    assert_eq!(download_crate(&vec![release(None, None)]), Err(RegistryError::MissingPath));
    assert_eq!(RegistryError::NothingPublished.message(), "no published non-yanked versions");
    assert_eq!(RegistryError::MissingPath.message(), "invalid crates.io response: missing dl_path");
}

#[test]
fn registry_addresses_and_statuses() {
    assert_eq!(crate_url("serde"), "https://crates.io/api/v1/crates/serde");
    assert_eq!(download_url("/api/v1/crates/serde/1.0.0/download"), "https://crates.io/api/v1/crates/serde/1.0.0/download");
    assert_eq!(decimal(0), "0");
    assert_eq!(decimal(9), "9");
    assert_eq!(decimal(404), "404");
    assert_eq!(decimal(65535), "65535");
    assert_eq!(status_message(404, "Not Found"), "crates io request failed with status code 404: Not Found");
}

#[test]
fn unpacked_path_drops_the_wrapping_directory() {
    assert_eq!(unpacked_path(&strings(&["serde-1.0.0", "src", "lib.rs"])), strings(&["src", "lib.rs"]));
    assert_eq!(unpacked_path(&strings(&["serde-1.0.0"])), Vec::<String>::new());
    assert_eq!(unpacked_path(&Vec::new()), Vec::<String>::new());
}

#[test]
fn copy_action_leaves_links_out() {
    assert_eq!(copy_action(EntryKind::Symlink, false), CopyAction::Skip);
    assert_eq!(copy_action(EntryKind::Symlink, true), CopyAction::Skip);
    assert_eq!(copy_action(EntryKind::Dir, false), CopyAction::CreateDir);
    assert_eq!(copy_action(EntryKind::Dir, true), CopyAction::Skip);
    assert_eq!(copy_action(EntryKind::File, false), CopyAction::CopyFile);
    assert_eq!(copy_action(EntryKind::File, true), CopyAction::CopyFile);
    assert_eq!(copy_action(EntryKind::Other, false), CopyAction::Skip);
}

#[test]
fn copy_all_puts_the_entry_below_the_target() {
    assert_eq!(
        copy_all(&strings(&["/", "tmp", "x"]), &strings(&["pkg", "src", "lib.rs"]), 1),
        strings(&["/", "tmp", "x", "src", "lib.rs"])
    );
    assert_eq!(copy_all(&strings(&["t"]), &strings(&["pkg"]), 1), strings(&["t"]));
    assert_eq!(copy_all(&strings(&["t"]), &strings(&["pkg"]), 5), strings(&["t"]));
    assert_eq!(copy_all(&strings(&["t"]), &strings(&["a", "b"]), 0), strings(&["t", "a", "b"]));
}
