//! The copy of a package directory: what is done with each entry found.

use vstd::prelude::*;

verus! {

/// What a directory entry is.
#[derive(Debug, Clone, Copy, PartialEq, Eq, Structural)]
pub enum EntryKind {
    Symlink,
    Dir,
    File,
    /// A device, a socket, a pipe.
    Other,
}

/// What the copy does with a directory entry.
#[derive(Debug, Clone, Copy, PartialEq, Eq, Structural)]
pub enum CopyAction {
    /// Leave it out.
    Skip,
    /// Make a directory at the target.
    CreateDir,
    /// Copy the file to the target.
    CopyFile,
}

pub open spec fn spec_copy_action(kind: EntryKind, target_exists: bool) -> CopyAction {
    match kind {
        EntryKind::Dir => if target_exists {
            CopyAction::Skip
        } else {
            CopyAction::CreateDir
        },
        EntryKind::File => CopyAction::CopyFile,
        _ => CopyAction::Skip,
    }
}

/// What the copy does with an entry of this kind: links are not followed
/// and not copied; a directory is made unless it is there; a file is
/// copied over what is there.
pub fn copy_action(kind: EntryKind, target_exists: bool) -> (r: CopyAction)
    ensures
        r == spec_copy_action(kind, target_exists),
{
    match kind {
        EntryKind::Dir => if target_exists {
            CopyAction::Skip
        } else {
            CopyAction::CreateDir
        },
        EntryKind::File => CopyAction::CopyFile,
        _ => CopyAction::Skip,
    }
}

/// The components of a path after the first `base`; none where the path
/// has no more than that.
pub open spec fn spec_below(path: Seq<Seq<char>>, base: int) -> Seq<Seq<char>> {
    if 0 <= base <= path.len() {
        path.skip(base)
    } else {
        Seq::empty()
    }
}

/// Where an entry goes: the components of its path below the source
/// directory, which has `base` components, put below the target.
pub fn copy_all(target: &Vec<String>, entry: &Vec<String>, base: usize) -> (r: Vec<String>)
    ensures
        r.deep_view() == target.deep_view() + spec_below(entry.deep_view(), base as int),
{
    let mut r: Vec<String> = Vec::new();
    let mut i: usize = 0;
    while i < target.len()
        invariant
            i <= target.len(),
            r@.len() == i,
            forall|j: int| 0 <= j < i ==> (#[trigger] r@[j])@ == target@[j]@,
        decreases target.len() - i,
    {
        r.push(target[i].clone());
        i += 1;
    }
    let mut k: usize = base;
    let ghost goal = target.deep_view() + spec_below(entry.deep_view(), base as int);
    if base >= entry.len() {
        proof {
            assert forall|j: int| 0 <= j < goal.len() implies (#[trigger] r@[j])@ == goal[j] by {
                assert(target.deep_view()[j] == target@[j]@);
            }
            crate::text::lemma_strings(r, goal);
        }
        return r;
    }
    while k < entry.len()
        invariant
            base <= k <= entry.len(),
            r@.len() == target.len() + (k - base),
            forall|j: int| 0 <= j < target.len() ==> (#[trigger] r@[j])@ == target@[j]@,
            forall|j: int|
                0 <= j < k - base ==> (#[trigger] r@[target.len() + j])@ == entry@[base + j]@,
        decreases entry.len() - k,
    {
        r.push(entry[k].clone());
        k += 1;
    }
    proof {
        assert forall|j: int| 0 <= j < goal.len() implies (#[trigger] r@[j])@ == goal[j] by {
            if j < target.len() {
                assert(target.deep_view()[j] == target@[j]@);
            } else {
                assert(r@[target.len() + (j - target.len())]@ == entry@[base + (j - target.len())]@);
                assert(entry.deep_view()[base + (j - target.len())] == entry@[base + (j
                    - target.len())]@);
            }
        }
        crate::text::lemma_strings(r, goal);
    }
    r
}

} // verus!
