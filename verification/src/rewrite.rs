//! The edits that turn a macro package's manifest into that of the package
//! that is compiled to WebAssembly, and into that of the package that
//! ships the compiled module.

use crate::document::{
    child, entry_at, has_table, is_prefix, lemma_without_well_formed, lemma_written_well_formed,
    path1, path2, root, string_array, toml_entries, well_formed, with_entry, without, written,
    Entries, Entry, EntryView, KeyPath, Manifest, ParseError, Setting,
};
use crate::text::str_eq;
use vstd::prelude::*;

verus! {

/// `m` with a table under `key` of the table at `table`: `m` itself where
/// one stands there, else `m` with an empty table in place of what stood there.
pub open spec fn with_table(m: Entries, table: KeyPath, key: Seq<char>) -> Entries {
    if has_table(m, table.push(key)) {
        m
    } else {
        written(m, table, key, EntryView::Table)
    }
}

/// Makes sure that a table stands under `key` of the table at `table`.
pub fn ensure_table(m: &mut Manifest, table: &Vec<String>, key: &str)
    ensures
        final(m)@ == with_table(old(m)@, table.deep_view(), key@),
        has_table(old(m)@, table.deep_view()) ==> has_table(
            final(m)@,
            table.deep_view().push(key@),
        ),
{
    let path = child(table, key);
    match m.get(&path) {
        Some(Entry::Table) => {},
        _ => {
            m.put_table(table, key, false);
        },
    }
}

/// `m` with a table at `a` and a table at `a.b`.
pub open spec fn with_tables(m: Entries, a: Seq<char>, b: Seq<char>) -> Entries {
    with_table(with_table(m, Seq::empty(), a), seq![a], b)
}

/// Makes sure that the table `a` and, in it, the table `b` exist. A table
/// that is made here stays out of the text until it holds a value.
pub fn implicit_table(m: &mut Manifest, a: &str, b: &str)
    ensures
        final(m)@ == with_tables(old(m)@, a@, b@),
        has_table(final(m)@, seq![a@, b@]),
{
    ensure_table(m, &root(), a);
    assert(Seq::<Seq<char>>::empty().push(a@) =~= seq![a@]);
    ensure_table(m, &path1(a), b);
    assert(seq![a@].push(b@) =~= seq![a@, b@]);
}

/// `m` with the inline table `{ kind = "dep" }` under `name` of the table at `table`.
pub open spec fn with_dependency(
    m: Entries,
    table: KeyPath,
    name: Seq<char>,
    kind: Seq<char>,
    dep: Seq<char>,
) -> Entries {
    written(written(m, table, name, EntryView::Table), table.push(name), kind, EntryView::Str(dep))
}

/// Writes the dependency `name = { kind = "dep" }` into the table at
/// `table`, in place of what stood under `name`. Says whether a table
/// stands at `table`; where none does, nothing is changed.
pub fn dependency(m: &mut Manifest, table: &Vec<String>, name: &str, kind: &str, dep: &str) -> (ok:
    bool)
    ensures
        ok == has_table(old(m)@, table.deep_view()),
        final(m)@ == with_dependency(old(m)@, table.deep_view(), name@, kind@, dep@),
{
    m.well_formed();
    let ok = m.put_table(table, name, true);
    if ok {
        m.put(&child(table, name), kind, &Setting::Str(dep.to_owned()));
    } else {
        assert(table.deep_view().push(name@).drop_last() =~= table.deep_view());
    }
    ok
}

/// `q` stands below the table at `table`.
pub open spec fn below(table: KeyPath, q: KeyPath) -> bool {
    is_prefix(table, q) && q.len() > table.len()
}

/// The entry that stands right in the table at `table` on the way to an
/// entry below it is an entry too.
pub proof fn lemma_child_exists(m: Entries, table: KeyPath, q: KeyPath)
    requires
        well_formed(m),
        m.dom().contains(q),
        below(table, q),
    ensures
        m.dom().contains(table.push(q[table.len() as int])),
    decreases q.len(),
{
    let c = table.push(q[table.len() as int]);
    if q.len() == table.len() + 1 {
        assert(q =~= c);
    } else {
        let d = q.drop_last();
        assert(d.subrange(0, table.len() as int) =~= q.subrange(0, table.len() as int));
        lemma_child_exists(m, table, d);
    }
}

/// To stand at or below the entry `k` of a table is to stand below the
/// table with `k` as the next key.
pub proof fn lemma_prefix_of_child(t: KeyPath, k: Seq<char>, q: KeyPath)
    ensures
        is_prefix(t.push(k), q) <==> (below(t, q) && q[t.len() as int] == k),
{
    let n = t.len() as int;
    if is_prefix(t.push(k), q) {
        let head = q.subrange(0, n + 1);
        assert(head == t.push(k));
        assert forall|j: int| 0 <= j < n implies q.subrange(0, n)[j] == t[j] by {
            assert(head[j] == q[j]);
            assert(t.push(k)[j] == t[j]);
        }
        assert(q.subrange(0, n) =~= t);
        assert(head[n] == q[n]);
        assert(t.push(k)[n] == k);
    }
    if below(t, q) && q[n] == k {
        assert forall|j: int| 0 <= j < n + 1 implies q.subrange(0, n + 1)[j] == t.push(k)[j] by {
            if j < n {
                assert(q.subrange(0, n)[j] == q[j]);
            }
        }
        assert(q.subrange(0, n + 1) =~= t.push(k));
    }
}

/// What a sequence with one more element holds.
pub proof fn lemma_contains_push(s: Seq<Seq<char>>, k: Seq<char>, x: Seq<char>)
    ensures
        s.push(k).contains(x) <==> (s.contains(x) || x == k),
{
    if s.contains(x) {
        let j = choose|j: int| 0 <= j < s.len() && s[j] == x;
        assert(s.push(k)[j] == x);
    }
    if x == k {
        assert(s.push(k)[s.len() as int] == x);
    }
    if s.push(k).contains(x) {
        let j = choose|j: int| 0 <= j < s.push(k).len() && s.push(k)[j] == x;
        if j < s.len() {
            assert(s[j] == x);
        }
    }
}

/// `m` with the lib target of a proc-macro package turned into that of a
/// dynamic library: no `proc-macro` flag, and `crate-type = ["cdylib"]`.
pub open spec fn as_cdylib(m: Entries) -> Entries {
    with_entry(
        without(with_table(m, Seq::empty(), "lib"@), seq!["lib"@, "proc-macro"@]),
        seq!["lib"@, "crate-type"@],
        EntryView::Array(seq![Some("cdylib"@)]),
    )
}

/// Turns the lib target into that of a dynamic library.
pub fn make_cdylib(m: &mut Manifest)
    ensures
        final(m)@ == as_cdylib(old(m)@),
{
    ensure_table(m, &root(), "lib");
    let lib = path1("lib");
    proof {
        assert(Seq::<Seq<char>>::empty().push("lib"@) =~= seq!["lib"@]);
        assert(seq!["lib"@].push("proc-macro"@) =~= seq!["lib"@, "proc-macro"@]);
        assert(seq!["lib"@].push("crate-type"@) =~= seq!["lib"@, "crate-type"@]);
    }
    m.remove(&lib, "proc-macro");
    let mut kinds: Vec<String> = Vec::new();
    kinds.push("cdylib".to_owned());
    let setting = Setting::List(kinds);
    assert(setting.deep_view() == EntryView::Array(seq![Some("cdylib"@)])) by {
        assert(kinds.deep_view() =~= seq!["cdylib"@]);
        assert(string_array(seq!["cdylib"@]) =~= seq![Some("cdylib"@)]);
    }
    assert(!is_prefix(seq!["lib"@, "proc-macro"@], seq!["lib"@]));
    m.put(&lib, "crate-type", &setting);
}

/// `m` without the entries of the table at `table`, but for the one under `keep`.
pub open spec fn keep_only(m: Entries, table: KeyPath, keep: Seq<char>) -> Entries {
    Map::new(
        |q: KeyPath| m.dom().contains(q) && !(below(table, q) && q[table.len() as int] != keep),
        |q: KeyPath| m[q],
    )
}

/// `m` without those entries of the table at `table` whose key is among
/// `done` and is not `keep`.
pub open spec fn pruned(m: Entries, table: KeyPath, done: Seq<Seq<char>>, keep: Seq<char>) -> Entries {
    Map::new(
        |q: KeyPath|
            m.dom().contains(q) && !(below(table, q) && q[table.len() as int] != keep
                && done.contains(q[table.len() as int])),
        |q: KeyPath| m[q],
    )
}

/// Removes every entry of the table at `table` but the one under `keep`.
pub fn retain_only(m: &mut Manifest, table: &Vec<String>, keep: &str)
    ensures
        final(m)@ == keep_only(old(m)@, table.deep_view(), keep@),
{
    m.well_formed();
    let keys = m.keys(table);
    let ghost m0 = m@;
    let ghost t = table.deep_view();
    let mut i: usize = 0;
    assert(m@ =~= pruned(m0, t, keys.deep_view().take(0), keep@));
    while i < keys.len()
        invariant
            i <= keys.len(),
            t == table.deep_view(),
            m@ == pruned(m0, t, keys.deep_view().take(i as int), keep@),
        decreases keys.len() - i,
    {
        let ghost done = keys.deep_view().take(i as int);
        let ghost k = keys@[i as int]@;
        assert(keys.deep_view().take(i + 1) =~= done.push(k));
        if !str_eq(keys[i].as_str(), keep) {
            m.remove(table, keys[i].as_str());
            let ghost next = pruned(m0, t, done.push(k), keep@);
            assert forall|q: KeyPath| m@.dom().contains(q) <==> next.dom().contains(q) by {
                lemma_prefix_of_child(t, k, q);
                if below(t, q) {
                    lemma_contains_push(done, k, q[t.len() as int]);
                }
            }
            assert(m@ =~= next);
        } else {
            let ghost next = pruned(m0, t, done.push(k), keep@);
            assert forall|q: KeyPath| m@.dom().contains(q) <==> next.dom().contains(q) by {
                if below(t, q) {
                    lemma_contains_push(done, k, q[t.len() as int]);
                }
            }
            assert(m@ =~= next);
        }
        i += 1;
    }
    assert(m@ =~= keep_only(m0, t, keep@)) by {
        assert(keys.deep_view().take(keys.len() as int) =~= keys.deep_view());
        assert forall|q: KeyPath| m0.dom().contains(q) && below(t, q) implies keys.deep_view().contains(
            q[t.len() as int],
        ) by {
            lemma_child_exists(m0, t, q);
        }
    }
}

/// `m` with the empty array under each key of the table at `table` that is
/// among `done`, in place of what stood there and below it.
pub open spec fn emptied(m: Entries, table: KeyPath, done: Seq<Seq<char>>) -> Entries {
    Map::new(
        |q: KeyPath|
            m.dom().contains(q) && !(below(table, q) && q.len() > table.len() + 1 && done.contains(
                q[table.len() as int],
            )),
        |q: KeyPath|
            if below(table, q) && done.contains(q[table.len() as int]) {
                EntryView::Array(Seq::empty())
            } else {
                m[q]
            },
    )
}

/// `m` with every entry of the table at `table` made the empty array.
pub open spec fn all_emptied(m: Entries, table: KeyPath) -> Entries {
    Map::new(
        |q: KeyPath| m.dom().contains(q) && !(below(table, q) && q.len() > table.len() + 1),
        |q: KeyPath|
            if below(table, q) {
                EntryView::Array(Seq::empty())
            } else {
                m[q]
            },
    )
}

/// Makes every entry of the table at `table` the empty array. Where no
/// table stands there, nothing is changed.
pub fn empty_all(m: &mut Manifest, table: &Vec<String>)
    ensures
        final(m)@ == all_emptied(old(m)@, table.deep_view()),
{
    m.well_formed();
    let keys = m.keys(table);
    let ghost m0 = m@;
    let ghost t = table.deep_view();
    let mut i: usize = 0;
    assert(m@ =~= emptied(m0, t, keys.deep_view().take(0)));
    while i < keys.len()
        invariant
            i <= keys.len(),
            t == table.deep_view(),
            well_formed(m0),
            m@ == emptied(m0, t, keys.deep_view().take(i as int)),
            forall|k: Seq<char>| #[trigger]
                keys.deep_view().contains(k) <==> m0.dom().contains(t.push(k)),
        decreases keys.len() - i,
    {
        let ghost done = keys.deep_view().take(i as int);
        let ghost k = keys@[i as int]@;
        let ghost before = m@;
        assert(keys.deep_view().take(i + 1) =~= done.push(k));
        assert(keys.deep_view()[i as int] == k);
        assert(keys.deep_view().contains(k));
        assert(m0.dom().contains(t.push(k)));
        assert(has_table(before, t)) by {
            assert(t.push(k).drop_last() =~= t);
            if t.len() > 0 {
                assert(!below(t, t));
            }
        }
        let none: Vec<String> = Vec::new();
        let setting = Setting::List(none);
        assert(setting.deep_view() == EntryView::Array(Seq::empty())) by {
            assert(none.deep_view() =~= Seq::<Seq<char>>::empty());
            assert(string_array(Seq::empty()) =~= Seq::<Option<Seq<char>>>::empty());
        }
        m.put(table, keys[i].as_str(), &setting);
        let ghost next = emptied(m0, t, done.push(k));
        let ghost p = t.push(k);
        assert(m@ == with_entry(before, p, EntryView::Array(Seq::empty())));
        assert(p.len() == t.len() + 1);
        assert forall|q: KeyPath| m@.dom().contains(q) <==> next.dom().contains(q) by {
            lemma_prefix_of_child(t, k, q);
            if below(t, q) {
                lemma_contains_push(done, k, q[t.len() as int]);
            }
            if q == p {
                assert(q[t.len() as int] == k);
            }
            if is_prefix(p, q) && q.len() == p.len() {
                assert(q.subrange(0, q.len() as int) =~= q);
            }
        }
        assert forall|q: KeyPath| m@.dom().contains(q) implies m@[q] == next[q] by {
            lemma_prefix_of_child(t, k, q);
            if below(t, q) {
                lemma_contains_push(done, k, q[t.len() as int]);
            }
            if q == p {
                assert(q[t.len() as int] == k);
            }
            if is_prefix(p, q) && q.len() == p.len() {
                assert(q.subrange(0, q.len() as int) =~= q);
            }
        }
        assert(m@ =~= next);
        i += 1;
    }
    assert(m@ =~= all_emptied(m0, t)) by {
        assert(keys.deep_view().take(keys.len() as int) =~= keys.deep_view());
        assert forall|q: KeyPath| m0.dom().contains(q) && below(t, q) implies keys.deep_view().contains(
            q[t.len() as int],
        ) by {
            lemma_child_exists(m0, t, q);
        }
    }
}

/// `m` with its dependencies replaced by those of the package that ships
/// the compiled module: `watt`, with `miniz_oxide` and `once_cell` where
/// the module is embedded deflated; `proc-macro-hack` stays where it was.
pub open spec fn with_watt_dependencies(m: Entries, compress: bool) -> Entries {
    let deps = seq!["dependencies"@];
    let kept = with_table(keep_only(m, deps, "proc-macro-hack"@), Seq::empty(), "dependencies"@);
    let watt = with_entry(kept, deps.push("watt"@), EntryView::Str("0.4"@));
    if compress {
        with_entry(
            with_entry(watt, deps.push("miniz_oxide"@), EntryView::Str("0.3"@)),
            deps.push("once_cell"@),
            EntryView::Str("1.4"@),
        )
    } else {
        watt
    }
}

/// `m` with each feature made one that switches nothing on.
pub open spec fn without_features(m: Entries) -> Entries {
    all_emptied(m, seq!["features"@])
}

/// The manifest of the package that ships the compiled module, made of
/// the macro package's manifest `m`.
pub open spec fn watt_manifest(m: Entries, compress: bool) -> Entries {
    without_features(with_watt_dependencies(m, compress))
}

/// Replaces the dependencies by `watt` and what it needs, and makes each
/// feature one that switches nothing on: the features' names stay, for the
/// packages that ask for them. Says whether there were features to drop.
pub fn modify_cargo_toml_for_watt(m: &mut Manifest, compress: bool) -> (had_features: bool)
    ensures
        final(m)@ == watt_manifest(old(m)@, compress),
        had_features == old(m)@.dom().contains(seq!["features"@]),
{
    let had_features = m.get(&path1("features")).is_some();
    let deps = path1("dependencies");
    proof {
        assert(Seq::<Seq<char>>::empty().push("dependencies"@) =~= seq!["dependencies"@]);
        lemma_top_level_keys();
    }
    retain_only(m, &deps, "proc-macro-hack");
    ensure_table(m, &root(), "dependencies");
    m.put(&deps, "watt", &Setting::Str("0.4".to_owned()));
    if compress {
        m.put(&deps, "miniz_oxide", &Setting::Str("0.3".to_owned()));
        m.put(&deps, "once_cell", &Setting::Str("1.4".to_owned()));
    }
    empty_all(m, &path1("features"));
    had_features
}

/// The top-level keys that the rewrites touch differ from one another.
pub proof fn lemma_top_level_keys()
    ensures
        "lib"@ != "dependencies"@,
        "lib"@ != "features"@,
        "dependencies"@ != "features"@,
        "proc-macro"@ != "crate-type"@,
{
    reveal_strlit("lib");
    reveal_strlit("dependencies");
    reveal_strlit("features");
    reveal_strlit("proc-macro");
    reveal_strlit("crate-type");
    assert("lib"@.len() != "dependencies"@.len());
    assert("lib"@.len() != "features"@.len());
    assert("dependencies"@.len() != "features"@.len());
    assert("proc-macro"@[0] != "crate-type"@[0]);
}

/// The manifest of a macro package `m`, rewritten whole: the lib target is
/// a dynamic library, the dependencies are those of the package that ships
/// the compiled module, and no feature switches anything on.
pub open spec fn bytecode_target(m: Entries, compress: bool) -> Entries {
    watt_manifest(as_cdylib(m), compress)
}

/// Rewrites a macro package's manifest: the `proc-macro` flag goes and the
/// crate type `cdylib` comes; the dependencies are replaced by `watt`, with
/// `miniz_oxide` and `once_cell` if `compress`, and with `proc-macro-hack`
/// as it was, if it was there; each feature is made empty. Says whether
/// there were features to drop, which the user should be told.
pub fn to_bytecode_target(m: &mut Manifest, compress: bool) -> (had_features: bool)
    ensures
        final(m)@ == bytecode_target(old(m)@, compress),
        had_features == old(m)@.dom().contains(seq!["features"@]),
{
    let ghost m0 = m@;
    make_cdylib(m);
    proof {
        lemma_top_level_keys();
        lemma_as_cdylib_elsewhere(m0, seq!["features"@]);
    }
    modify_cargo_toml_for_watt(m, compress)
}

/// Turning the lib target into a dynamic library changes nothing outside `lib`.
pub proof fn lemma_as_cdylib_elsewhere(m: Entries, q: KeyPath)
    requires
        q.len() > 0,
        q[0] != "lib"@,
    ensures
        as_cdylib(m).dom().contains(q) == m.dom().contains(q),
        m.dom().contains(q) ==> as_cdylib(m)[q] == m[q],
{
    let lib = seq!["lib"@];
    assert(Seq::<Seq<char>>::empty().push("lib"@) =~= lib);
    assert(!is_prefix(lib, q)) by {
        if is_prefix(lib, q) {
            assert(q.subrange(0, 1)[0] == q[0]);
        }
    }
    assert(!is_prefix(seq!["lib"@, "proc-macro"@], q)) by {
        if is_prefix(seq!["lib"@, "proc-macro"@], q) {
            assert(q.subrange(0, 2)[0] == q[0]);
        }
    }
    assert(!is_prefix(seq!["lib"@, "crate-type"@], q)) by {
        if is_prefix(seq!["lib"@, "crate-type"@], q) {
            assert(q.subrange(0, 2)[0] == q[0]);
        }
    }
}

/// A path that starts with another key than `a` does not stand at or below `a` or `a.b`.
pub proof fn lemma_other_start(a: Seq<char>, b: Seq<char>, q: KeyPath)
    requires
        q.len() > 0,
        q[0] != a,
    ensures
        !is_prefix(seq![a], q),
        !is_prefix(seq![a].push(b), q),
        !below(seq![a], q),
{
    if is_prefix(seq![a], q) {
        assert(q.subrange(0, 1)[0] == q[0]);
    }
    if is_prefix(seq![a].push(b), q) {
        assert(q.subrange(0, 2)[0] == q[0]);
        assert(seq![a].push(b)[0] == a);
    }
}

/// Replacing the dependencies and emptying the features changes nothing
/// outside `dependencies` and `features`.
pub proof fn lemma_watt_manifest_elsewhere(m: Entries, compress: bool, q: KeyPath)
    requires
        q.len() > 0,
        q[0] != "dependencies"@,
        q[0] != "features"@,
    ensures
        watt_manifest(m, compress).dom().contains(q) == m.dom().contains(q),
        m.dom().contains(q) ==> watt_manifest(m, compress)[q] == m[q],
{
    assert(Seq::<Seq<char>>::empty().push("dependencies"@) =~= seq!["dependencies"@]);
    lemma_other_start("dependencies"@, "watt"@, q);
    lemma_other_start("dependencies"@, "miniz_oxide"@, q);
    lemma_other_start("dependencies"@, "once_cell"@, q);
    lemma_other_start("features"@, "x"@, q);
}

/// Whether the table `dependencies` has an entry under `k`.
pub open spec fn has_dependency(m: Entries, k: Seq<char>) -> bool {
    m.dom().contains(seq!["dependencies"@, k])
}

/// The dependencies of the package that ships the compiled module.
pub open spec fn is_watt_dependency(m: Entries, compress: bool, k: Seq<char>) -> bool {
    ||| k == "watt"@
    ||| (k == "proc-macro-hack"@ && m.dom().contains(seq!["dependencies"@, "proc-macro-hack"@]))
    ||| (compress && (k == "miniz_oxide"@ || k == "once_cell"@))
}

/// After the dependencies were replaced, the table `dependencies` holds
/// `watt`, `proc-macro-hack` if it was there, and, where the module is
/// embedded deflated, `miniz_oxide` and `once_cell`; nothing else.
pub proof fn lemma_watt_dependencies(m: Entries, compress: bool, k: Seq<char>)
    requires
        well_formed(m),
    ensures
        with_watt_dependencies(m, compress).dom().contains(seq!["dependencies"@, k])
            <==> is_watt_dependency(m, compress, k),
        has_table(with_watt_dependencies(m, compress), seq!["dependencies"@]),
        with_watt_dependencies(m, compress)[seq!["dependencies"@, "watt"@]] == EntryView::Str(
            "0.4"@,
        ),
{
    reveal_strlit("watt");
    reveal_strlit("proc-macro-hack");
    reveal_strlit("miniz_oxide");
    reveal_strlit("once_cell");
    assert("watt"@.len() == 4 && "proc-macro-hack"@.len() == 15 && "miniz_oxide"@.len() == 11
        && "once_cell"@.len() == 9);
    let deps = seq!["dependencies"@];
    let hack = "proc-macro-hack"@;
    let q = seq!["dependencies"@, k];
    assert(Seq::<Seq<char>>::empty().push("dependencies"@) =~= deps);
    assert(deps.push(k) =~= q);
    assert(deps.push("watt"@) =~= seq!["dependencies"@, "watt"@]);
    assert(deps.push(hack) =~= seq!["dependencies"@, hack]);
    let kept = keep_only(m, deps, hack);
    let tabled = with_table(kept, Seq::empty(), "dependencies"@);
    lemma_prefix_of_child(Seq::empty(), "dependencies"@, q);
    lemma_prefix_of_child(deps, "watt"@, q);
    lemma_prefix_of_child(deps, "miniz_oxide"@, q);
    lemma_prefix_of_child(deps, "once_cell"@, q);
    lemma_prefix_of_child(deps, "watt"@, deps);
    lemma_prefix_of_child(deps, "miniz_oxide"@, deps);
    lemma_prefix_of_child(deps, "once_cell"@, deps);
    lemma_prefix_of_child(deps, "watt"@, deps.push("watt"@));
    lemma_prefix_of_child(deps, "miniz_oxide"@, deps.push("watt"@));
    lemma_prefix_of_child(deps, "once_cell"@, deps.push("watt"@));
    assert(q.subrange(0, 1) =~= deps);
    assert(below(deps, q));
    assert(q[1] == k);
    assert(!below(deps, deps));
    assert(kept.dom().contains(q) <==> (m.dom().contains(q) && k == hack));
    if m.dom().contains(q) {
        assert(q.drop_last() =~= deps);
        assert(has_table(m, deps));
        assert(has_table(kept, deps));
        assert(tabled == kept);
    }
    assert(has_table(tabled, deps));
    assert(tabled.dom().contains(q) <==> (m.dom().contains(q) && k == hack));
}

/// What the rewritten manifest of a macro package holds: no `proc-macro`
/// flag; the crate type `cdylib`; and as its dependencies `watt`, in the
/// version that this library builds for, `proc-macro-hack` if the package
/// had it, `miniz_oxide` and `once_cell` exactly where the module is
/// embedded deflated, and nothing else.
pub proof fn lemma_bytecode_target(m: Entries, compress: bool)
    requires
        well_formed(m),
    ensures
        !bytecode_target(m, compress).dom().contains(seq!["lib"@, "proc-macro"@]),
        entry_at(bytecode_target(m, compress), seq!["lib"@, "crate-type"@]) == Some(
            EntryView::Array(seq![Some("cdylib"@)]),
        ),
        entry_at(bytecode_target(m, compress), seq!["dependencies"@, "watt"@]) == Some(
            EntryView::Str("0.4"@),
        ),
        forall|k: Seq<char>| #[trigger]
            has_dependency(bytecode_target(m, compress), k) <==> is_watt_dependency(m, compress, k),
{
    lemma_top_level_keys();
    let c = as_cdylib(m);
    let flag = seq!["lib"@, "proc-macro"@];
    let kind = seq!["lib"@, "crate-type"@];
    lemma_watt_manifest_elsewhere(c, compress, flag);
    lemma_watt_manifest_elsewhere(c, compress, kind);
    assert(!is_prefix(kind, flag)) by {
        if is_prefix(kind, flag) {
            assert(flag.subrange(0, 2)[1] == flag[1]);
        }
    }
    assert(is_prefix(flag, flag)) by {
        assert(flag.subrange(0, 2) =~= flag);
    }
    assert(!c.dom().contains(flag));
    assert(c[kind] == EntryView::Array(seq![Some("cdylib"@)]));
    assert(well_formed(c)) by {
        let lib = with_table(m, Seq::empty(), "lib"@);
        lemma_written_well_formed(m, Seq::empty(), "lib"@, EntryView::Table);
        lemma_without_well_formed(lib, flag);
        assert(Seq::<Seq<char>>::empty().push("lib"@) =~= seq!["lib"@]);
        assert(seq!["lib"@].push("crate-type"@) =~= kind);
        assert(!is_prefix(flag, seq!["lib"@]));
        assert(has_table(without(lib, flag), seq!["lib"@]));
        lemma_written_well_formed(
            without(lib, flag),
            seq!["lib"@],
            "crate-type"@,
            EntryView::Array(seq![Some("cdylib"@)]),
        );
    }
    let w = with_watt_dependencies(c, compress);
    assert forall|k: Seq<char>| #[trigger]
        has_dependency(bytecode_target(m, compress), k) <==> is_watt_dependency(
            m,
            compress,
            k,
        ) by {
        let q = seq!["dependencies"@, k];
        lemma_watt_dependencies(c, compress, k);
        lemma_other_start("features"@, "x"@, q);
        lemma_as_cdylib_elsewhere(m, seq!["dependencies"@, "proc-macro-hack"@]);
    }
    lemma_watt_dependencies(c, compress, "watt"@);
    lemma_other_start("features"@, "x"@, seq!["dependencies"@, "watt"@]);
}

/// The rewritten manifest of a macro package that does not depend on
/// `proc-macro-hack` has `watt` as its one dependency, and beside it
/// `miniz_oxide` and `once_cell` exactly where the module is embedded
/// deflated.
pub proof fn lemma_bytecode_target_dependencies(m: Entries, compress: bool)
    requires
        well_formed(m),
        !has_dependency(m, "proc-macro-hack"@),
    ensures
        forall|k: Seq<char>| #[trigger]
            has_dependency(bytecode_target(m, compress), k) <==> (k == "watt"@ || (compress && (k
                == "miniz_oxide"@ || k == "once_cell"@))),
{
    lemma_bytecode_target(m, compress);
    assert forall|k: Seq<char>| #[trigger]
        has_dependency(bytecode_target(m, compress), k) <==> (k == "watt"@ || (compress && (k
            == "miniz_oxide"@ || k == "once_cell"@))) by {
        assert(has_dependency(bytecode_target(m, compress), k) <==> is_watt_dependency(
            m,
            compress,
            k,
        ));
    }
}

/// The table in which a manifest redirects packages of the registry.
pub open spec fn redirects() -> KeyPath {
    seq!["patch"@, "crates-io"@]
}

/// `m` with each package of `deps` redirected to the git repository that
/// stands beside its name.
pub open spec fn with_git_patches(m: Entries, deps: Seq<(Seq<char>, Seq<char>)>) -> Entries
    decreases deps.len(),
{
    if deps.len() == 0 {
        m
    } else {
        with_dependency(
            with_git_patches(m, deps.drop_last()),
            redirects(),
            deps.last().0,
            "git"@,
            deps.last().1,
        )
    }
}

/// Writes the dependency `name = { git = "url" }` into the table at `table`.
pub fn git_dependency(m: &mut Manifest, table: &Vec<String>, name: &str, url: &str) -> (ok: bool)
    ensures
        ok == has_table(old(m)@, table.deep_view()),
        final(m)@ == with_dependency(old(m)@, table.deep_view(), name@, "git"@, url@),
{
    dependency(m, table, name, "git", url)
}

/// Redirects each package of `deps`, a list of names and repositories, to
/// its repository, in the table `patch.crates-io`, which is made if need be.
pub fn patch(m: &mut Manifest, deps: &Vec<(String, String)>)
    ensures
        final(m)@ == with_git_patches(
            with_tables(old(m)@, "patch"@, "crates-io"@),
            deps.deep_view(),
        ),
{
    implicit_table(m, "patch", "crates-io");
    let table = path2("patch", "crates-io");
    let ghost m1 = m@;
    let mut i: usize = 0;
    assert(deps.deep_view().take(0) =~= Seq::empty());
    while i < deps.len()
        invariant
            i <= deps.len(),
            table.deep_view() == redirects(),
            m@ == with_git_patches(m1, deps.deep_view().take(i as int)),
        decreases deps.len() - i,
    {
        let ghost done = deps.deep_view().take(i as int);
        let ghost next = deps.deep_view().take(i + 1);
        assert(next.drop_last() =~= done);
        assert(next.last() == (deps@[i as int].0@, deps@[i as int].1@));
        git_dependency(m, &table, deps[i].0.as_str(), deps[i].1.as_str());
        i += 1;
    }
    assert(deps.deep_view().take(deps.len() as int) =~= deps.deep_view());
}

/// The packages that the compiled package must take from elsewhere, each
/// with the repository that holds a version of it that compiles to WebAssembly.
pub open spec fn spec_patches() -> Seq<(Seq<char>, Seq<char>)> {
    seq![
        ("proc-macro2"@, "https://github.com/dtolnay/watt"@),
        ("syn"@, "https://github.com/jakobhellermann/syn"@),
    ]
}

/// The packages that the compiled package must take from elsewhere.
pub fn patches() -> (r: Vec<(String, String)>)
    ensures
        r.deep_view() == spec_patches(),
{
    let mut r: Vec<(String, String)> = Vec::new();
    r.push(("proc-macro2".to_owned(), "https://github.com/dtolnay/watt".to_owned()));
    r.push(("syn".to_owned(), "https://github.com/jakobhellermann/syn".to_owned()));
    assert(r.deep_view() =~= spec_patches());
    r
}

/// The manifest of the package that is compiled to WebAssembly, made of
/// the macro package's manifest `m`: the lib target is a dynamic library;
/// the release profile builds one code unit, for size; `proc-macro2` is a
/// dependency, so that it can be redirected; and `patch.crates-io`
/// redirects the packages of [`spec_patches`].
pub open spec fn wasm_manifest(m: Entries) -> Entries {
    let release = seq!["profile"@, "release"@];
    let profiled = written(
        written(
            with_tables(as_cdylib(m), "profile"@, "release"@),
            release,
            "codegen-units"@,
            EntryView::Integer(1),
        ),
        release,
        "opt-level"@,
        EntryView::Str("s"@),
    );
    let tabled = with_table(profiled, Seq::empty(), "dependencies"@);
    let depending = if tabled.dom().contains(seq!["dependencies"@, "proc-macro2"@]) {
        tabled
    } else {
        written(tabled, seq!["dependencies"@], "proc-macro2"@, EntryView::Str("1.0"@))
    };
    with_git_patches(with_tables(depending, "patch"@, "crates-io"@), spec_patches())
}

/// Rewrites a macro package's manifest into that of the package that is
/// compiled to WebAssembly.
pub fn rewrite_for_wasm(m: &mut Manifest)
    ensures
        final(m)@ == wasm_manifest(old(m)@),
{
    make_cdylib(m);
    implicit_table(m, "profile", "release");
    let release = path2("profile", "release");
    m.put(&release, "codegen-units", &Setting::Integer(1));
    m.put(&release, "opt-level", &Setting::Str("s".to_owned()));
    ensure_table(m, &root(), "dependencies");
    if m.get(&path2("dependencies", "proc-macro2")).is_none() {
        m.put(&path1("dependencies"), "proc-macro2", &Setting::Str("1.0".to_owned()));
    }
    patch(m, &patches());
}

/// Rewrites the text of a macro package's manifest into that of the
/// package that is compiled to WebAssembly. Fails exactly on a text that
/// is not TOML; else the result is the text of a manifest that holds the
/// rewritten entries.
pub fn cargo_toml(input: &str) -> (r: Result<String, ParseError>)
    ensures
        match r {
            Ok(text) => toml_entries(input@) is Some && exists|m: Manifest|
                m@ == wasm_manifest(toml_entries(input@).unwrap()) && text@
                    == #[trigger] m.text(),
            Err(_) => toml_entries(input@) is None,
        },
{
    match Manifest::load(input) {
        Err(e) => Err(e),
        Ok(m) => {
            let mut m = m;
            rewrite_for_wasm(&mut m);
            Ok(m.write())
        },
    }
}

/// The directory, beside a workspace's manifest, that holds the rebuilt
/// macro packages.
pub open spec fn spec_watt_dir() -> Seq<char> {
    ".watt-patched"@
}

/// The directory, beside a workspace's manifest, that holds the rebuilt
/// macro packages.
pub fn watt_dir() -> (r: &'static str)
    ensures
        r@ == spec_watt_dir(),
{
    ".watt-patched"
}

/// Where the rebuilt package `name` lies, as seen from the workspace's manifest.
pub open spec fn spec_patched_path(name: Seq<char>) -> Seq<char> {
    "./"@ + spec_watt_dir() + "/"@ + name
}

/// Where the rebuilt package `name` lies, as seen from the workspace's manifest.
pub fn patched_path(name: &str) -> (r: String)
    ensures
        r@ == spec_patched_path(name@),
{
    let mut r = "./".to_owned();
    r.append(watt_dir());
    r.append("/");
    r.append(name);
    r
}

/// `m` with each package of `names` redirected to its rebuilt copy.
pub open spec fn with_path_patches(m: Entries, names: Seq<Seq<char>>) -> Entries
    decreases names.len(),
{
    if names.len() == 0 {
        m
    } else {
        with_dependency(
            with_path_patches(m, names.drop_last()),
            redirects(),
            names.last(),
            "path"@,
            spec_patched_path(names.last()),
        )
    }
}

/// Redirects each package of `names` to its rebuilt copy, in the table
/// `patch.crates-io`, which is made if need be.
pub fn redirect_to_rebuilt(m: &mut Manifest, names: &Vec<String>)
    ensures
        final(m)@ == with_path_patches(
            with_tables(old(m)@, "patch"@, "crates-io"@),
            names.deep_view(),
        ),
{
    implicit_table(m, "patch", "crates-io");
    let table = path2("patch", "crates-io");
    let ghost m1 = m@;
    let mut i: usize = 0;
    assert(names.deep_view().take(0) =~= Seq::empty());
    while i < names.len()
        invariant
            i <= names.len(),
            table.deep_view() == redirects(),
            m@ == with_path_patches(m1, names.deep_view().take(i as int)),
        decreases names.len() - i,
    {
        let ghost done = names.deep_view().take(i as int);
        let ghost next = names.deep_view().take(i + 1);
        assert(next.drop_last() =~= done);
        assert(next.last() == names@[i as int]@);
        let path = patched_path(names[i].as_str());
        dependency(m, &table, names[i].as_str(), "path", path.as_str());
        i += 1;
    }
    assert(names.deep_view().take(names.len() as int) =~= names.deep_view());
}

/// Rewrites the text of a workspace's manifest so that each package of
/// `names` is taken from its rebuilt copy. Fails exactly on a text that is
/// not TOML. With no package to redirect the text comes back as it is;
/// else the result is the text of a manifest that holds the entries with
/// the redirections.
pub fn add_patches(input: &str, names: &Vec<String>) -> (r: Result<
    String,
    ParseError,
>)
    ensures
        match r {
            Ok(text) => toml_entries(input@) is Some && if names.len() == 0 {
                text@ == input@
            } else {
                exists|m: Manifest|
                    m@ == with_path_patches(
                        with_tables(
                            toml_entries(input@).unwrap(),
                            "patch"@,
                            "crates-io"@,
                        ),
                        names.deep_view(),
                    ) && text@ == #[trigger] m.text()
            },
            Err(_) => toml_entries(input@) is None,
        },
{
    match Manifest::load(input) {
        Err(e) => Err(e),
        Ok(m) => {
            if names.len() == 0 {
                Ok(input.to_owned())
            } else {
                let mut m = m;
                redirect_to_rebuilt(&mut m, names);
                Ok(m.write())
            }
        },
    }
}

} // verus!
