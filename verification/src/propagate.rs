//! The macro packages among the packages that a workspace depends on:
//! which of them are rebuilt, each once.

use crate::text::str_eq;
use vstd::prelude::*;

verus! {

/// A package of a workspace's dependency graph, as resolved: its name,
/// its version, and the kinds of each of its targets.
#[derive(Debug, Clone)]
pub struct Package {
    pub name: String,
    pub version: String,
    pub target_kinds: Vec<Vec<String>>,
}

/// The mathematical value of a [`Package`].
pub struct PackageView {
    pub name: Seq<char>,
    pub version: Seq<char>,
    pub target_kinds: Seq<Seq<Seq<char>>>,
}

impl DeepView for Package {
    type V = PackageView;

    open spec fn deep_view(&self) -> PackageView {
        PackageView {
            name: self.name@,
            version: self.version@,
            target_kinds: self.target_kinds.deep_view(),
        }
    }
}

/// A target of these kinds is a macro library.
pub open spec fn is_macro_target(kinds: Seq<Seq<char>>) -> bool {
    exists|k: int| 0 <= k < kinds.len() && #[trigger] kinds[k] == "proc-macro"@
}

/// The package has a target that is a macro library.
pub open spec fn spec_is_proc_macro(p: PackageView) -> bool {
    exists|t: int| 0 <= t < p.target_kinds.len() && is_macro_target(#[trigger] p.target_kinds[t])
}

fn has_macro_kind(kinds: &Vec<String>) -> (r: bool)
    ensures
        r == is_macro_target(kinds.deep_view()),
{
    let mut k: usize = 0;
    while k < kinds.len()
        invariant
            k <= kinds.len(),
            forall|j: int| 0 <= j < k ==> #[trigger] kinds.deep_view()[j] != "proc-macro"@,
        decreases kinds.len() - k,
    {
        assert(kinds.deep_view()[k as int] == kinds@[k as int]@);
        if str_eq(kinds[k].as_str(), "proc-macro") {
            return true;
        }
        k += 1;
    }
    false
}

/// Whether the package is a macro package: whether one of its targets is
/// of the kind `proc-macro`.
pub fn is_proc_macro(package: &Package) -> (r: bool)
    ensures
        r == spec_is_proc_macro(package.deep_view()),
{
    let mut t: usize = 0;
    while t < package.target_kinds.len()
        invariant
            t <= package.target_kinds.len(),
            forall|j: int|
                0 <= j < t ==> !is_macro_target(#[trigger] package.deep_view().target_kinds[j]),
        decreases package.target_kinds.len() - t,
    {
        assert(package.deep_view().target_kinds[t as int] == package.target_kinds@[t as int].deep_view());
        if has_macro_kind(&package.target_kinds[t]) {
            return true;
        }
        t += 1;
    }
    false
}

/// Two entries of the graph are the same package: they agree in name and version.
pub open spec fn same_package(a: PackageView, b: PackageView) -> bool {
    a.name == b.name && a.version == b.version
}

/// The package at `i` is rebuilt: it is a macro package, and no macro
/// package before it is the same package.
pub open spec fn is_rebuilt(packages: Seq<PackageView>, i: int) -> bool {
    &&& 0 <= i < packages.len()
    &&& spec_is_proc_macro(packages[i])
    &&& forall|j: int|
        0 <= j < i && spec_is_proc_macro(#[trigger] packages[j]) ==> !same_package(
            packages[j],
            packages[i],
        )
}

/// The places, among the first `n` of the graph, of the packages that are
/// rebuilt, in their order.
pub open spec fn rebuilt_among(packages: Seq<PackageView>, n: nat) -> Seq<int>
    decreases n,
{
    if n == 0 {
        Seq::empty()
    } else if is_rebuilt(packages, n - 1) {
        rebuilt_among(packages, (n - 1) as nat).push(n - 1)
    } else {
        rebuilt_among(packages, (n - 1) as nat)
    }
}

/// The places, in the graph, of the packages that are rebuilt, in their order.
pub open spec fn rebuilt(packages: Seq<PackageView>) -> Seq<int> {
    rebuilt_among(packages, packages.len())
}

/// Whether a macro package before the one at `i` is the same package.
fn seen_before(packages: &Vec<Package>, i: usize) -> (r: bool)
    requires
        i < packages.len(),
    ensures
        r == exists|j: int|
            0 <= j < i && spec_is_proc_macro(#[trigger] packages.deep_view()[j]) && same_package(
                packages.deep_view()[j],
                packages.deep_view()[i as int],
            ),
{
    let ghost all = packages.deep_view();
    let mut j: usize = 0;
    while j < i
        invariant
            j <= i,
            i < packages.len(),
            all == packages.deep_view(),
            forall|k: int|
                0 <= k < j ==> !(spec_is_proc_macro(#[trigger] all[k]) && same_package(
                    all[k],
                    all[i as int],
                )),
        decreases i - j,
    {
        assert(all[j as int] == packages@[j as int].deep_view());
        assert(all[i as int] == packages@[i as int].deep_view());
        if is_proc_macro(&packages[j]) && str_eq(
            packages[j].name.as_str(),
            packages[i].name.as_str(),
        ) && str_eq(packages[j].version.as_str(), packages[i].version.as_str()) {
            return true;
        }
        j += 1;
    }
    false
}

/// The packages that are rebuilt, by their places in the graph: every
/// macro package, once. Where the graph has no macro package, none.
pub fn patch(packages: &Vec<Package>) -> (r: Vec<usize>)
    ensures
        r@.map_values(|i: usize| i as int) == rebuilt(packages.deep_view()),
        forall|c: int| 0 <= c < r.len() ==> #[trigger] r@[c] < packages.len(),
{
    let ghost all = packages.deep_view();
    let mut chosen: Vec<usize> = Vec::new();
    let mut i: usize = 0;
    assert(chosen@.map_values(|i: usize| i as int) =~= rebuilt_among(all, 0));
    while i < packages.len()
        invariant
            i <= packages.len(),
            all == packages.deep_view(),
            chosen@.map_values(|i: usize| i as int) == rebuilt_among(all, i as nat),
            forall|c: int| 0 <= c < chosen.len() ==> #[trigger] chosen@[c] < i,
        decreases packages.len() - i,
    {
        let ghost before = chosen@;
        assert(all[i as int] == packages@[i as int].deep_view());
        let fresh = is_proc_macro(&packages[i]) && !seen_before(packages, i);
        assert(fresh == is_rebuilt(all, i as int));
        if fresh {
            chosen.push(i);
            assert(chosen@.map_values(|i: usize| i as int) =~= before.map_values(
                |i: usize| i as int,
            ).push(i as int));
        }
        i += 1;
    }
    chosen
}

/// The names of the packages at `places`, in their order.
pub fn names_at(packages: &Vec<Package>, places: &Vec<usize>) -> (r: Vec<String>)
    requires
        forall|c: int| 0 <= c < places.len() ==> #[trigger] places@[c] < packages.len(),
    ensures
        r.len() == places.len(),
        forall|c: int| 0 <= c < r.len() ==> (#[trigger] r@[c])@ == packages@[places@[c] as int].name@,
{
    let mut r: Vec<String> = Vec::new();
    let mut c: usize = 0;
    while c < places.len()
        invariant
            c <= places.len(),
            r.len() == c,
            forall|d: int| 0 <= d < places.len() ==> #[trigger] places@[d] < packages.len(),
            forall|d: int| 0 <= d < c ==> (#[trigger] r@[d])@ == packages@[places@[d] as int].name@,
        decreases places.len() - c,
    {
        r.push(packages[places[c]].name.clone());
        c += 1;
    }
    r
}

/// A workspace that depends on no macro package has nothing rebuilt.
pub proof fn lemma_nothing_to_rebuild(packages: Seq<PackageView>)
    requires
        forall|i: int| 0 <= i < packages.len() ==> !spec_is_proc_macro(#[trigger] packages[i]),
    ensures
        rebuilt(packages) == Seq::<int>::empty(),
{
    lemma_nothing_among(packages, packages.len());
}

/// Among packages none of which is a macro package, nothing is rebuilt.
pub proof fn lemma_nothing_among(packages: Seq<PackageView>, n: nat)
    requires
        n <= packages.len(),
        forall|i: int| 0 <= i < packages.len() ==> !spec_is_proc_macro(#[trigger] packages[i]),
    ensures
        rebuilt_among(packages, n) == Seq::<int>::empty(),
    decreases n,
{
    if n > 0 {
        lemma_nothing_among(packages, (n - 1) as nat);
        assert(!spec_is_proc_macro(packages[n - 1]));
    }
}

} // verus!
