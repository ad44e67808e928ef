//! What the user asks for: where the macro package comes from, how its
//! module is post-processed, and which of the three commands runs.

use vstd::prelude::*;

verus! {

/// Where a macro package is taken from: a local path unless a git
/// repository or a registry package is named.
#[derive(Debug, Clone)]
pub struct Input {
    pub path: String,
    pub git: Option<String>,
    pub crate_: Option<String>,
}

/// The one place that an [`Input`] stands for.
#[derive(Debug, Clone)]
pub enum Source {
    /// Clone this repository.
    Git(String),
    /// Download this package from the registry.
    Registry(String),
    /// Copy this directory.
    Local(String),
}

/// The mathematical value of a [`Source`].
pub enum SourceView {
    Git(Seq<char>),
    Registry(Seq<char>),
    Local(Seq<char>),
}

impl View for Source {
    type V = SourceView;

    open spec fn view(&self) -> SourceView {
        match self {
            Source::Git(s) => SourceView::Git(s@),
            Source::Registry(s) => SourceView::Registry(s@),
            Source::Local(s) => SourceView::Local(s@),
        }
    }
}

impl Input {
    /// The input that names a registry package and nothing else.
    pub fn crate_(crate_: String) -> (r: Self)
        ensures
            r.crate_ == Some(crate_),
            r.git is None,
            r.path@ == Seq::<char>::empty(),
    {
        Input { crate_: Some(crate_), path: String::new(), git: None }
    }

    /// The place that this input stands for.
    pub open spec fn spec_source(&self) -> SourceView {
        match (self.git, self.crate_) {
            (Some(url), _) => SourceView::Git(url@),
            (None, Some(name)) => SourceView::Registry(name@),
            (None, None) => SourceView::Local(self.path@),
        }
    }

    /// The place that this input stands for: a repository wins over a
    /// registry package, and either over the path.
    pub fn source(&self) -> (r: Source)
        ensures
            r@ == self.spec_source(),
    {
        match &self.git {
            Some(url) => Source::Git(url.clone()),
            None => match &self.crate_ {
                Some(name) => Source::Registry(name.clone()),
                None => Source::Local(self.path.clone()),
            },
        }
    }
}

/// How the compiled module is post-processed and embedded.
#[derive(Debug, Clone, Copy, PartialEq, Eq, Structural)]
pub struct CompilationOptions {
    /// Leave the module's debug and symbol sections in.
    pub no_wasm_strip: bool,
    /// Skip the size optimisation.
    pub no_wasm_opt: bool,
    /// Embed the module deflated.
    pub compress: bool,
}

/// A tool that the options ask for and that is not installed.
#[derive(Debug, Clone, Copy, PartialEq, Eq, Structural)]
pub enum MissingTool {
    WasmStrip,
    WasmOpt,
}

impl MissingTool {
    pub open spec fn spec_message(self) -> Seq<char> {
        match self {
            MissingTool::WasmStrip => "cannot find wasm-strip, try --no-wasm-strip"@,
            MissingTool::WasmOpt => "cannot find wasm-opt, try --no-wasm-opt"@,
        }
    }

    /// What to tell the user.
    pub fn message(self) -> (r: String)
        ensures
            r@ == self.spec_message(),
    {
        match self {
            MissingTool::WasmStrip => "cannot find wasm-strip, try --no-wasm-strip".to_owned(),
            MissingTool::WasmOpt => "cannot find wasm-opt, try --no-wasm-opt".to_owned(),
        }
    }
}

impl CompilationOptions {
    pub open spec fn spec_verify(self, has_strip: bool, has_opt: bool) -> Result<(), MissingTool> {
        if !self.no_wasm_strip && !has_strip {
            Err(MissingTool::WasmStrip)
        } else if !self.no_wasm_opt && !has_opt {
            Err(MissingTool::WasmOpt)
        } else {
            Ok(())
        }
    }

    /// Checks, before anything is built, that each tool the options ask for
    /// is installed. `has_strip` and `has_opt` say whether `wasm-strip` and
    /// `wasm-opt` answered a call.
    pub fn verify(&self, has_strip: bool, has_opt: bool) -> (r: Result<(), MissingTool>)
        ensures
            r == self.spec_verify(has_strip, has_opt),
    {
        if !self.no_wasm_strip && !has_strip {
            Err(MissingTool::WasmStrip)
        } else if !self.no_wasm_opt && !has_opt {
            Err(MissingTool::WasmOpt)
        } else {
            Ok(())
        }
    }
}

/// The three commands.
#[derive(Debug, Clone)]
pub enum Options {
    /// Build the package that ships the compiled module.
    Build {
        input: Input,
        compilation_options: CompilationOptions,
        /// Copy only the manifest and the sources to the new package.
        only_copy_essential: bool,
        overwrite: bool,
        /// Keep the temporary build directory.
        keep_tmp: bool,
    },
    /// Check that a module was built from the given package.
    Verify { file: String, input: Input, compilation_options: CompilationOptions },
    /// Rebuild every macro package that a workspace depends on.
    Patch { path: String, compilation_options: CompilationOptions },
}

impl Options {
    pub open spec fn spec_input(&self) -> Input
        recommends
            !(self is Patch),
    {
        match self {
            Options::Build { input, .. } => *input,
            Options::Verify { input, .. } => *input,
            Options::Patch { .. } => arbitrary(),
        }
    }

    /// The package that a build or a verification works on. A patch has none.
    pub fn input(&self) -> (r: &Input)
        requires
            !(self is Patch),
        ensures
            *r == self.spec_input(),
    {
        match self {
            Options::Build { input, .. } => input,
            Options::Verify { input, .. } => input,
            Options::Patch { .. } => {
                proof {
                    assert(false);
                }
                unreached()
            },
        }
    }

    pub open spec fn spec_compilation_options(&self) -> CompilationOptions {
        match self {
            Options::Build { compilation_options, .. } => *compilation_options,
            Options::Verify { compilation_options, .. } => *compilation_options,
            Options::Patch { compilation_options, .. } => *compilation_options,
        }
    }

    /// The post-processing options, which every command has.
    pub fn compilation_options(&self) -> (r: &CompilationOptions)
        ensures
            *r == self.spec_compilation_options(),
    {
        match self {
            Options::Build { compilation_options, .. } => compilation_options,
            Options::Verify { compilation_options, .. } => compilation_options,
            Options::Patch { compilation_options, .. } => compilation_options,
        }
    }

    pub open spec fn spec_keep_tmp(&self) -> bool {
        match self {
            Options::Build { keep_tmp, .. } => *keep_tmp,
            _ => false,
        }
    }

    /// Whether the temporary build directory outlives the command: only a
    /// build can ask for that.
    pub fn keep_tmp(&self) -> (r: bool)
        ensures
            r == self.spec_keep_tmp(),
    {
        match self {
            Options::Build { keep_tmp, .. } => *keep_tmp,
            _ => false,
        }
    }
}

} // verus!
