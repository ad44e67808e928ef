//! Calls of outside programs, as values: the library says what is to be
//! run, its user runs it and hands back how it ended.

use vstd::prelude::*;

verus! {

/// One call of an outside program.
#[derive(Debug, Clone)]
pub struct Invocation {
    pub program: String,
    pub args: Vec<String>,
    /// The directory to run in; `None` for the caller's own.
    pub dir: Option<String>,
    /// Environment variables to set for the call.
    pub env: Vec<(String, String)>,
}

/// The mathematical value of an [`Invocation`].
pub struct InvocationView {
    pub program: Seq<char>,
    pub args: Seq<Seq<char>>,
    pub dir: Option<Seq<char>>,
    pub env: Seq<(Seq<char>, Seq<char>)>,
}

impl DeepView for Invocation {
    type V = InvocationView;

    open spec fn deep_view(&self) -> InvocationView {
        InvocationView {
            program: self.program@,
            args: self.args.deep_view(),
            dir: match self.dir {
                Some(d) => Some(d@),
                None => None,
            },
            env: self.env.deep_view(),
        }
    }
}

/// How a call ended: whether the program reported success, and what it
/// wrote to its error stream.
#[derive(Debug, Clone)]
pub struct Outcome {
    pub success: bool,
    pub stderr: String,
}

/// A program that ran and reported failure, with what it wrote to its
/// error stream.
#[derive(Debug, Clone)]
pub struct ToolFailure {
    pub stderr: String,
}

/// `cargo` with the given arguments, run in `path`.
pub fn cargo(path: &str, args: Vec<String>) -> (r: Invocation)
    ensures
        r.deep_view() == (InvocationView {
            program: "cargo"@,
            args: args.deep_view(),
            dir: Some(path@),
            env: Seq::empty(),
        }),
{
    let r = Invocation {
        program: "cargo".to_owned(),
        args,
        dir: Some(path.to_owned()),
        env: Vec::new(),
    };
    assert(r.env.deep_view() =~= Seq::empty());
    r
}

/// `cargo fmt`, run in `path`.
pub fn cargo_fmt(path: &str) -> (r: Invocation)
    ensures
        r.deep_view() == (InvocationView {
            program: "cargo"@,
            args: seq!["fmt"@],
            dir: Some(path@),
            env: Seq::empty(),
        }),
{
    let mut args: Vec<String> = Vec::new();
    args.push("fmt".to_owned());
    assert(args.deep_view() =~= seq!["fmt"@]);
    cargo(path, args)
}

/// `git clone url path`, run where the caller is.
pub fn clone_git_into(path: &str, url: &str) -> (r: Invocation)
    ensures
        r.deep_view() == (InvocationView {
            program: "git"@,
            args: seq!["clone"@, url@, path@],
            dir: None,
            env: Seq::empty(),
        }),
{
    let mut args: Vec<String> = Vec::new();
    args.push("clone".to_owned());
    args.push(url.to_owned());
    args.push(path.to_owned());
    assert(args.deep_view() =~= seq!["clone"@, url@, path@]);
    let r = Invocation { program: "git".to_owned(), args, dir: None, env: Vec::new() };
    assert(r.env.deep_view() =~= Seq::empty());
    r
}

impl Outcome {
    /// A call that reported failure is an error that carries its error
    /// stream; any other call is fine.
    pub fn check(self) -> (r: Result<(), ToolFailure>)
        ensures
            self.success ==> r is Ok,
            !self.success ==> r == Err::<(), ToolFailure>(ToolFailure { stderr: self.stderr }),
    {
        if self.success {
            Ok(())
        } else {
            Err(ToolFailure { stderr: self.stderr })
        }
    }
}

} // verus!
