//! The check that a compiled module was built from a given package.

use crate::text::chars_of;
use vstd::prelude::*;

verus! {

/// The path names a file with the extension `wasm`: it ends in `.wasm`,
/// and the file's name has something before that.
pub open spec fn spec_is_wasm_file(path: Seq<char>) -> bool {
    &&& path.len() > 5
    &&& path.subrange(path.len() - 5, path.len() as int) == ".wasm"@
    &&& path[path.len() - 6] != '/'
}

/// Whether the path names a file with the extension `wasm`.
pub fn is_wasm_file(path: &str) -> (r: bool)
    ensures
        r == spec_is_wasm_file(path@),
{
    let p = chars_of(path);
    let n = p.len();
    if n <= 5 {
        return false;
    }
    proof {
        reveal_strlit(".wasm");
    }
    let ghost tail = path@.subrange(n - 5, n as int);
    let ends = p[n - 5] == '.' && p[n - 4] == 'w' && p[n - 3] == 'a' && p[n - 2] == 's' && p[n
        - 1] == 'm';
    proof {
        assert(tail.len() == 5);
        assert(tail[0] == p@[n - 5] && tail[1] == p@[n - 4] && tail[2] == p@[n - 3] && tail[3]
            == p@[n - 2] && tail[4] == p@[n - 1]);
        if ends {
            assert(tail =~= ".wasm"@);
        }
    }
    ends && p[n - 6] != '/'
}

/// The last component of a path: what follows its last `/`.
pub open spec fn spec_file_name(path: Seq<char>) -> Seq<char>
    decreases path.len(),
{
    if path.len() == 0 || path.last() == '/' {
        Seq::empty()
    } else {
        spec_file_name(path.drop_last()).push(path.last())
    }
}

/// The last component of a path.
pub fn file_name(path: &str) -> (r: String)
    ensures
        r@ == spec_file_name(path@),
{
    let p = chars_of(path);
    let mut start: usize = p.len();
    while start > 0 && p[start - 1] != '/'
        invariant
            start <= p.len(),
            forall|j: int| start <= j < p.len() ==> p@[j] != '/',
        decreases start,
    {
        start -= 1;
    }
    let mut r = String::new();
    let mut i: usize = start;
    proof {
        lemma_file_name(p@, start as int, start as int);
    }
    while i < p.len()
        invariant
            start <= i <= p.len(),
            p@ == path@,
            start == 0 || p@[start - 1] == '/',
            forall|j: int| start <= j < p.len() ==> p@[j] != '/',
            r@ == spec_file_name(p@.take(i as int)),
        decreases p.len() - i,
    {
        crate::text::push_char(&mut r, p[i]);
        proof {
            assert(p@.take(i + 1).drop_last() =~= p@.take(i as int));
            assert(p@.take(i + 1).last() == p@[i as int]);
        }
        i += 1;
    }
    assert(p@.take(p.len() as int) =~= p@);
    r
}

/// Right after a `/`, or at the start, the file name is still empty.
proof fn lemma_file_name(p: Seq<char>, start: int, i: int)
    requires
        0 <= start <= p.len(),
        i == start,
        start == 0 || p[start - 1] == '/',
    ensures
        spec_file_name(p.take(i)) == Seq::<char>::empty(),
{
    if start > 0 {
        assert(p.take(i).last() == p[start - 1]);
    }
}

/// A module that is not the one that was built.
#[derive(Debug, Clone)]
pub enum VerificationError {
    /// The file that was given is not named as a WebAssembly module.
    NotWasm { path: String },
    /// The module that was built differs from the one that was given, in
    /// length or in a byte.
    Mismatch { file: String, package: String },
}

/// The mathematical value of a [`VerificationError`].
pub enum VerificationErrorView {
    NotWasm { path: Seq<char> },
    Mismatch { file: Seq<char>, package: Seq<char> },
}

impl View for VerificationError {
    type V = VerificationErrorView;

    open spec fn view(&self) -> VerificationErrorView {
        match self {
            VerificationError::NotWasm { path } => VerificationErrorView::NotWasm { path: path@ },
            VerificationError::Mismatch { file, package } => VerificationErrorView::Mismatch {
                file: file@,
                package: package@,
            },
        }
    }
}

impl VerificationError {
    pub open spec fn spec_message(self) -> Seq<char> {
        match self {
            VerificationError::NotWasm { path } => "'"@ + path@ + "' is not a wasm file"@,
            VerificationError::Mismatch { file, package } => "'"@ + file@
                + "' wasn't compiled from '"@ + package@ + "' or the build wasn't reproducible"@,
        }
    }

    /// What to tell the user.
    pub fn message(&self) -> (r: String)
        ensures
            r@ == self.spec_message(),
    {
        match self {
            VerificationError::NotWasm { path } => {
                let mut r = "'".to_owned();
                r.append(path.as_str());
                r.append("' is not a wasm file");
                r
            },
            VerificationError::Mismatch { file, package } => {
                let mut r = "'".to_owned();
                r.append(file.as_str());
                r.append("' wasn't compiled from '");
                r.append(package.as_str());
                r.append("' or the build wasn't reproducible");
                r
            },
        }
    }
}

/// Checks, before anything is built, that the file to verify is named as
/// a WebAssembly module.
pub fn check_artifact_path(path: &str) -> (r: Result<(), VerificationError>)
    ensures
        spec_is_wasm_file(path@) ==> r is Ok,
        !spec_is_wasm_file(path@) ==> r is Err && r->Err_0@ == (VerificationErrorView::NotWasm {
            path: path@,
        }),
{
    if is_wasm_file(path) {
        Ok(())
    } else {
        Err(VerificationError::NotWasm { path: path.to_owned() })
    }
}

/// Whether two modules are the same, byte for byte.
pub fn same_bytes(a: &Vec<u8>, b: &Vec<u8>) -> (r: bool)
    ensures
        r == (a@ == b@),
{
    if a.len() != b.len() {
        return false;
    }
    let mut i: usize = 0;
    while i < a.len()
        invariant
            i <= a.len(),
            a.len() == b.len(),
            forall|j: int| 0 <= j < i ==> a@[j] == b@[j],
        decreases a.len() - i,
    {
        if a[i] != b[i] {
            return false;
        }
        i += 1;
    }
    assert(a@ =~= b@);
    true
}

/// What the verification of the module at `path` comes to, given the
/// module's bytes and the bytes that were built from the package: a path
/// that is not named as a WebAssembly module is refused first of all; then
/// the two must be the same, byte for byte.
pub open spec fn spec_verify(
    path: Seq<char>,
    package: Seq<char>,
    given: Seq<u8>,
    built: Seq<u8>,
) -> Result<(), VerificationErrorView> {
    if !spec_is_wasm_file(path) {
        Err(VerificationErrorView::NotWasm { path })
    } else if given != built {
        Err(VerificationErrorView::Mismatch { file: spec_file_name(path), package })
    } else {
        Ok(())
    }
}

/// Verifies the module that was given, read from `path`, against the
/// module that was built from the package `package`. A path without the
/// extension `wasm` is an error whatever the bytes are; else the two
/// modules must be the same, byte for byte, and the error names the file
/// and the package.
pub fn verify(path: &str, package: &str, given: &Vec<u8>, built: &Vec<u8>) -> (r: Result<
    (),
    VerificationError,
>)
    ensures
        match r {
            Ok(()) => spec_verify(path@, package@, given@, built@) is Ok,
            Err(e) => spec_verify(path@, package@, given@, built@) == Err::<
                (),
                VerificationErrorView,
            >(e@),
        },
{
    match check_artifact_path(path) {
        Err(e) => Err(e),
        Ok(()) => {
            if same_bytes(given, built) {
                Ok(())
            } else {
                Err(
                    VerificationError::Mismatch {
                        file: file_name(path),
                        package: package.to_owned(),
                    },
                )
            }
        },
    }
}

} // verus!
