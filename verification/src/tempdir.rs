//! The temporary directory that a package is copied into and built in.

use crate::text::{join3, push_char};
use vstd::prelude::*;

verus! {

/// A letter of either case, or a digit.
pub open spec fn is_alphanumeric(c: char) -> bool {
    ('a' <= c && c <= 'z') || ('A' <= c && c <= 'Z') || ('0' <= c && c <= '9')
}

/// `fastrand::alphanumeric`: a character drawn at random from the letters
/// of either case and the digits.
#[verifier::external_body]
fn random_alphanumeric() -> (c: char)
    ensures
        is_alphanumeric(c),
{
    fastrand::alphanumeric()
}

/// The shape of a temporary directory's name: `.tmp` and seven letters or digits.
pub open spec fn is_temp_name(name: Seq<char>) -> bool {
    &&& name.len() == 11
    &&& name.subrange(0, 4) == ".tmp"@
    &&& forall|i: int| 4 <= i < 11 ==> is_alphanumeric(#[trigger] name[i])
}

/// `path` is `parent`, a slash and a temporary directory's name.
pub open spec fn is_temp_path(path: Seq<char>, parent: Seq<char>) -> bool {
    &&& path.len() == parent.len() + 12
    &&& path.subrange(0, parent.len() as int) == parent
    &&& path[parent.len() as int] == '/'
    &&& is_temp_name(path.subrange(parent.len() as int + 1, path.len() as int))
}

/// A fresh name for a temporary directory.
pub fn temp_name() -> (name: String)
    ensures
        is_temp_name(name@),
{
    let mut name = ".tmp".to_owned();
    proof {
        reveal_strlit(".tmp");
    }
    let mut n: usize = 0;
    while n < 7
        invariant
            n <= 7,
            name@.len() == 4 + n,
            name@.subrange(0, 4) == ".tmp"@,
            forall|i: int| 4 <= i < 4 + n ==> is_alphanumeric(#[trigger] name@[i]),
        decreases 7 - n,
    {
        let c = random_alphanumeric();
        let ghost before = name@;
        push_char(&mut name, c);
        assert(name@.subrange(0, 4) == before.subrange(0, 4));
        n += 1;
    }
    name
}

/// A temporary directory: where it is, and whether it goes when its owner does.
#[derive(Debug)]
pub struct Tempdir {
    path: String,
    delete: bool,
}

impl Tempdir {
    /// Where the directory is.
    pub closed spec fn spec_path(&self) -> Seq<char> {
        self.path@
    }

    /// Whether the directory is removed when its owner is done with it.
    pub closed spec fn spec_delete(&self) -> bool {
        self.delete
    }

    /// A directory with a fresh name below `parent`, to be removed after use.
    /// It is named here; to make it is the caller's part.
    pub fn new(parent: &str) -> (r: Self)
        ensures
            r.spec_delete(),
            is_temp_path(r.spec_path(), parent@),
    {
        let name = temp_name();
        let path = join3(parent, "/", name.as_str());
        proof {
            reveal_strlit("/");
            assert(path@.subrange(0, parent@.len() as int) == parent@);
            assert(path@.subrange(parent@.len() as int + 1, path@.len() as int) == name@);
        }
        Tempdir { path, delete: true }
    }

    /// Says whether the directory is removed after use.
    pub fn set_delete(&mut self, delete: bool)
        ensures
            final(self).spec_delete() == delete,
            final(self).spec_path() == old(self).spec_path(),
    {
        self.delete = delete;
    }

    /// Where the directory is.
    pub fn path(&self) -> (r: &str)
        ensures
            r@ == self.spec_path(),
    {
        self.path.as_str()
    }

    /// Whether the directory is removed after use.
    pub fn delete(&self) -> (r: bool)
        ensures
            r == self.spec_delete(),
    {
        self.delete
    }
}

} // verus!
