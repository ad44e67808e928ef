//! The build of one macro package: which outside programs are run, in
//! which order, and where the compiled module is found.

use crate::options::CompilationOptions;
use crate::process::{Invocation, InvocationView};
use crate::text::{chars_of, join2, push_char};
use vstd::prelude::*;

verus! {

/// The target that the package is compiled for.
pub open spec fn spec_target() -> Seq<char> {
    "wasm32-unknown-unknown"@
}

/// The flags that make the compiler write `/cargo_home` wherever a path
/// starts with cargo's home directory, so that the module does not depend
/// on where it was built. Without a home directory there are none.
pub open spec fn spec_rust_flags(cargo_home: Option<Seq<char>>) -> Seq<char> {
    match cargo_home {
        Some(home) => "--remap-path-prefix "@ + home + "=/cargo_home"@,
        None => Seq::empty(),
    }
}

/// The flags for the compiler, given cargo's home directory if it is
/// known. Where it is not, the module will hold paths of this machine.
pub fn rust_flags(cargo_home: Option<&str>) -> (r: String)
    ensures
        r@ == spec_rust_flags(
            match cargo_home {
                Some(home) => Some(home@),
                None => None,
            },
        ),
{
    match cargo_home {
        Some(home) => {
            let mut r = "--remap-path-prefix ".to_owned();
            r.append(home);
            r.append("=/cargo_home");
            r
        },
        None => String::new(),
    }
}

/// `name` with each `-` made `_`: the name that the compiler gives the module.
pub open spec fn spec_normalized(name: Seq<char>) -> Seq<char> {
    Seq::new(
        name.len(),
        |i: int|
            if name[i] == '-' {
                '_'
            } else {
                name[i]
            },
    )
}

/// The name that the compiler gives the module of the package `name`.
pub fn normalized(name: &str) -> (r: String)
    ensures
        r@ == spec_normalized(name@),
{
    let chars = chars_of(name);
    let mut r = String::new();
    let mut i: usize = 0;
    while i < chars.len()
        invariant
            i <= chars.len(),
            chars@ == name@,
            r@ == spec_normalized(name@).take(i as int),
        decreases chars.len() - i,
    {
        let c = if chars[i] == '-' {
            '_'
        } else {
            chars[i]
        };
        push_char(&mut r, c);
        assert(r@ =~= spec_normalized(name@).take(i + 1));
        i += 1;
    }
    assert(spec_normalized(name@).take(chars.len() as int) =~= spec_normalized(name@));
    r
}

/// Where the compiled module of the package `name` lies: in the release
/// directory of the target, below `target_dir`.
pub open spec fn spec_wasm_path(target_dir: Seq<char>, name: Seq<char>) -> Seq<char> {
    target_dir + "/"@ + spec_target() + "/release/"@ + spec_normalized(name) + ".wasm"@
}

/// The directory that cargo builds into: the one that is set, else
/// `target` inside the package.
pub open spec fn spec_target_dir(set: Option<Seq<char>>, directory: Seq<char>) -> Seq<char> {
    match set {
        Some(dir) => dir,
        None => directory + "/target"@,
    }
}

/// Where the compiled module of the package `name` lies, for a package in
/// `directory` and the target directory `set`, if one is set.
pub fn wasm_path(set: Option<&str>, directory: &str, name: &str) -> (r: String)
    ensures
        r@ == spec_wasm_path(
            spec_target_dir(
                match set {
                    Some(dir) => Some(dir@),
                    None => None,
                },
                directory@,
            ),
            name@,
        ),
{
    let mut r = match set {
        Some(dir) => dir.to_owned(),
        None => join2(directory, "/target"),
    };
    r.append("/");
    r.append("wasm32-unknown-unknown");
    r.append("/release/");
    let module = normalized(name);
    r.append(module.as_str());
    r.append(".wasm");
    r
}

/// The call that compiles the package in `directory` for the target, in
/// release mode, with every feature on.
pub open spec fn spec_cargo_build(directory: Seq<char>, flags: Seq<char>) -> InvocationView {
    InvocationView {
        program: "cargo"@,
        args: seq!["build"@, "--target"@, spec_target(), "--release"@, "--all-features"@],
        dir: Some(directory),
        env: seq![("RUSTFLAGS"@, flags)],
    }
}

/// The call that compiles the package in `directory`.
pub fn cargo_build(directory: &str, flags: &str) -> (r: Invocation)
    ensures
        r.deep_view() == spec_cargo_build(directory@, flags@),
{
    let mut args: Vec<String> = Vec::new();
    args.push("build".to_owned());
    args.push("--target".to_owned());
    args.push("wasm32-unknown-unknown".to_owned());
    args.push("--release".to_owned());
    args.push("--all-features".to_owned());
    let mut env: Vec<(String, String)> = Vec::new();
    env.push(("RUSTFLAGS".to_owned(), flags.to_owned()));
    let r = Invocation { program: "cargo".to_owned(), args, dir: Some(directory.to_owned()), env };
    assert(r.args.deep_view() =~= spec_cargo_build(directory@, flags@).args);
    assert(r.env.deep_view() =~= spec_cargo_build(directory@, flags@).env);
    r
}

/// The call that takes the debug and symbol sections out of the module at `path`.
pub fn wasm_strip(path: &str) -> (r: Invocation)
    ensures
        r.deep_view() == (InvocationView {
            program: "wasm-strip"@,
            args: seq![path@],
            dir: None,
            env: Seq::empty(),
        }),
{
    let mut args: Vec<String> = Vec::new();
    args.push(path.to_owned());
    let r = Invocation { program: "wasm-strip".to_owned(), args, dir: None, env: Vec::new() };
    assert(r.args.deep_view() =~= seq![path@]);
    assert(r.env.deep_view() =~= Seq::empty());
    r
}

/// The call that optimises the module at `path` for size, in place.
pub fn wasm_opt(path: &str) -> (r: Invocation)
    ensures
        r.deep_view() == (InvocationView {
            program: "wasm-opt"@,
            args: seq![path@, "-o"@, path@, "-Os"@],
            dir: None,
            env: Seq::empty(),
        }),
{
    let mut args: Vec<String> = Vec::new();
    args.push(path.to_owned());
    args.push("-o".to_owned());
    args.push(path.to_owned());
    args.push("-Os".to_owned());
    let r = Invocation { program: "wasm-opt".to_owned(), args, dir: None, env: Vec::new() };
    assert(r.args.deep_view() =~= seq![path@, "-o"@, path@, "-Os"@]);
    assert(r.env.deep_view() =~= Seq::empty());
    r
}

/// The steps of a build, in their order.
#[derive(Debug, Clone, Copy, PartialEq, Eq, Structural)]
pub enum Step {
    /// Rewrite the manifest and the sources of the copy.
    Modify,
    /// Compile the copy.
    Compile,
    /// Find the compiled module.
    Locate,
    /// Take the debug and symbol sections out of the module.
    Strip,
    /// Optimise the module for size.
    Optimize,
    /// Read the module.
    Read,
    /// Nothing is left to do.
    Done,
}

/// Why a build ended early.
#[derive(Debug, Clone, Copy, PartialEq, Eq, Structural)]
pub enum BuildError {
    /// The manifest or the sources could not be rewritten.
    Modify,
    /// The compiler reported failure.
    Cargo,
    /// The compiler reported success, and the module is not where it should be.
    ArtifactNotFound,
    /// `wasm-strip` reported failure.
    Strip,
    /// `wasm-opt` reported failure.
    Optimize,
    /// The module could not be read.
    Read,
}

impl BuildError {
    pub open spec fn spec_message(self) -> Seq<char> {
        match self {
            BuildError::Modify => "failed to make modifications to crate"@,
            BuildError::Cargo => "cargo failed"@,
            BuildError::ArtifactNotFound => "cannot find compiled wasm"@,
            BuildError::Strip => "wasm-strip failed"@,
            BuildError::Optimize => "wasm-opt failed"@,
            BuildError::Read => "cannot read compiled wasm"@,
        }
    }

    /// What to tell the user.
    pub fn message(self) -> (r: &'static str)
        ensures
            r@ == self.spec_message(),
    {
        match self {
            BuildError::Modify => "failed to make modifications to crate",
            BuildError::Cargo => "cargo failed",
            BuildError::ArtifactNotFound => "cannot find compiled wasm",
            BuildError::Strip => "wasm-strip failed",
            BuildError::Optimize => "wasm-opt failed",
            BuildError::Read => "cannot read compiled wasm",
        }
    }
}

impl Step {
    /// The error that a failure of this step is.
    pub open spec fn spec_failure(self) -> BuildError {
        match self {
            Step::Modify => BuildError::Modify,
            Step::Compile => BuildError::Cargo,
            Step::Locate => BuildError::ArtifactNotFound,
            Step::Strip => BuildError::Strip,
            Step::Optimize => BuildError::Optimize,
            _ => BuildError::Read,
        }
    }

    /// The step that follows this one when it succeeded: the two
    /// post-processing steps are taken unless the options leave them out.
    pub open spec fn spec_after(self, options: CompilationOptions) -> Step {
        match self {
            Step::Modify => Step::Compile,
            Step::Compile => Step::Locate,
            Step::Locate => if !options.no_wasm_strip {
                Step::Strip
            } else if !options.no_wasm_opt {
                Step::Optimize
            } else {
                Step::Read
            },
            Step::Strip => if !options.no_wasm_opt {
                Step::Optimize
            } else {
                Step::Read
            },
            Step::Optimize => Step::Read,
            Step::Read => Step::Done,
            Step::Done => Step::Done,
        }
    }

    /// The first step of a build.
    pub fn first() -> (r: Step)
        ensures
            r == Step::Modify,
    {
        Step::Modify
    }

    /// What follows this step, given how it ended: the next step after a
    /// success, and after a failure the error that ends the build. No
    /// step is tried again, and none is taken after a failure.
    pub fn next(self, succeeded: bool, options: &CompilationOptions) -> (r: Result<Step, BuildError>)
        ensures
            succeeded || self == Step::Done ==> r == Ok::<Step, BuildError>(
                self.spec_after(*options),
            ),
            !succeeded && self != Step::Done ==> r == Err::<Step, BuildError>(self.spec_failure()),
    {
        if !succeeded {
            match self {
                Step::Modify => {
                    return Err(BuildError::Modify);
                },
                Step::Compile => {
                    return Err(BuildError::Cargo);
                },
                Step::Locate => {
                    return Err(BuildError::ArtifactNotFound);
                },
                Step::Strip => {
                    return Err(BuildError::Strip);
                },
                Step::Optimize => {
                    return Err(BuildError::Optimize);
                },
                Step::Read => {
                    return Err(BuildError::Read);
                },
                Step::Done => {},
            }
        }
        Ok(
            match self {
                Step::Modify => Step::Compile,
                Step::Compile => Step::Locate,
                Step::Locate => if !options.no_wasm_strip {
                    Step::Strip
                } else if !options.no_wasm_opt {
                    Step::Optimize
                } else {
                    Step::Read
                },
                Step::Strip => if !options.no_wasm_opt {
                    Step::Optimize
                } else {
                    Step::Read
                },
                Step::Optimize => Step::Read,
                Step::Read => Step::Done,
                Step::Done => Step::Done,
            },
        )
    }

    /// The call of an outside program that this step stands for, for a
    /// package in `directory` whose compiled module lies at `module`:
    /// the compiler with `flags`, `wasm-strip`, or `wasm-opt`. The other
    /// steps are work on files, and stand for none.
    pub open spec fn spec_invocation(
        self,
        directory: Seq<char>,
        flags: Seq<char>,
        module: Seq<char>,
    ) -> Option<InvocationView> {
        match self {
            Step::Compile => Some(spec_cargo_build(directory, flags)),
            Step::Strip => Some(
                InvocationView {
                    program: "wasm-strip"@,
                    args: seq![module],
                    dir: None,
                    env: Seq::empty(),
                },
            ),
            Step::Optimize => Some(
                InvocationView {
                    program: "wasm-opt"@,
                    args: seq![module, "-o"@, module, "-Os"@],
                    dir: None,
                    env: Seq::empty(),
                },
            ),
            _ => None,
        }
    }

    /// The call of an outside program that this step stands for, if it
    /// stands for one.
    pub fn invocation(self, directory: &str, flags: &str, module: &str) -> (r: Option<Invocation>)
        ensures
            r.deep_view() == self.spec_invocation(directory@, flags@, module@),
    {
        match self {
            Step::Compile => Some(cargo_build(directory, flags)),
            Step::Strip => Some(wasm_strip(module)),
            Step::Optimize => Some(wasm_opt(module)),
            _ => None,
        }
    }

    /// How many steps can still follow this one.
    pub open spec fn spec_rank(self) -> nat {
        match self {
            Step::Modify => 6,
            Step::Compile => 5,
            Step::Locate => 4,
            Step::Strip => 3,
            Step::Optimize => 2,
            Step::Read => 1,
            Step::Done => 0,
        }
    }
}

/// The steps of a build in which nothing fails, in their order.
pub open spec fn spec_compile(options: CompilationOptions) -> Seq<Step> {
    seq![Step::Modify, Step::Compile, Step::Locate] + (if options.no_wasm_strip {
        Seq::<Step>::empty()
    } else {
        seq![Step::Strip]
    }) + (if options.no_wasm_opt {
        Seq::<Step>::empty()
    } else {
        seq![Step::Optimize]
    }) + seq![Step::Read]
}

/// The steps that a build takes when nothing fails: the walk from the
/// first step along [`Step::next`] to the end.
pub fn compile(options: &CompilationOptions) -> (r: Vec<Step>)
    ensures
        r@ == spec_compile(*options),
{
    let mut steps: Vec<Step> = Vec::new();
    let mut step = Step::first();
    let ghost all = spec_compile(*options);
    while step != Step::Done
        invariant
            all == spec_compile(*options),
            steps@.len() <= all.len(),
            steps@ == all.take(steps@.len() as int),
            step == Step::Done ==> steps@.len() == all.len(),
            step != Step::Done ==> steps@.len() < all.len() && all[steps@.len() as int] == step,
        decreases step.spec_rank(),
    {
        let ghost n = steps@.len() as int;
        steps.push(step);
        assert(steps@ =~= all.take(n + 1));
        match step.next(true, options) {
            Ok(next) => {
                step = next;
            },
            Err(_) => {
                step = Step::Done;
            },
        }
    }
    assert(all.take(all.len() as int) =~= all);
    steps
}

/// Every step leads on towards the end: a build takes at most six steps,
/// strips only where stripping is asked for, and optimises only where
/// optimising is asked for.
pub proof fn lemma_steps_advance(step: Step, options: CompilationOptions)
    ensures
        step != Step::Done ==> step.spec_after(options).spec_rank() < step.spec_rank(),
        step.spec_after(options) == Step::Strip ==> !options.no_wasm_strip,
        step.spec_after(options) == Step::Optimize ==> !options.no_wasm_opt,
{
}

} // verus!
