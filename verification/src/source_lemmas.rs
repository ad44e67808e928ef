//! What holds of the rewrite of a source module, whatever the module.

use crate::source::{
    allow_warnings, annotation_kind, can_rewrite, can_rewrite_fn, entry_kind, entry_points,
    inner_fn, is_plugin_import, kept, record_of, rewritable, rewritten, shim_of, shims,
    spec_macro_kind, to_inner, token_stream, ProcMacroFnView, ProcMacroKind,
};
use crate::syntax::{marker, parsed_type, unraw, ItemView, ModuleView};
use vstd::prelude::*;

verus! {

/// No item of `items` is an entry point.
pub open spec fn no_entry_points(items: Seq<ItemView>) -> bool {
    forall|i: int| 0 <= i < items.len() ==> entry_kind(#[trigger] items[i]) is None
}

/// No item of `items` brings the compiler's macro interface in.
pub open spec fn no_plugin_import(items: Seq<ItemView>) -> bool {
    forall|i: int| 0 <= i < items.len() ==> !is_plugin_import(#[trigger] items[i])
}

/// What is kept of a sequence of items is kept of its parts.
pub proof fn lemma_kept_concat(a: Seq<ItemView>, b: Seq<ItemView>)
    ensures
        kept(a + b) == kept(a) + kept(b),
    decreases b.len(),
{
    if b.len() == 0 {
        assert(a + b =~= a);
        assert(kept(a) + kept(b) =~= kept(a));
    } else {
        assert((a + b).drop_last() =~= a + b.drop_last());
        assert((a + b).last() == b.last());
        lemma_kept_concat(a, b.drop_last());
        if is_plugin_import(b.last()) {
        } else {
            assert(kept(a + b) =~= kept(a) + kept(b));
        }
    }
}

/// The entry points of a sequence of items are those of its parts.
pub proof fn lemma_entry_points_concat(a: Seq<ItemView>, b: Seq<ItemView>)
    ensures
        entry_points(a + b) == entry_points(a) + entry_points(b),
    decreases b.len(),
{
    if b.len() == 0 {
        assert(a + b =~= a);
        assert(entry_points(a) + entry_points(b) =~= entry_points(a));
    } else {
        assert((a + b).drop_last() =~= a + b.drop_last());
        assert((a + b).last() == b.last());
        lemma_entry_points_concat(a, b.drop_last());
        if entry_kind(b.last()) is Some {
            assert(entry_points(a + b) =~= entry_points(a) + entry_points(b));
        }
    }
}

/// The shims for a sequence of items are those for its parts.
pub proof fn lemma_shims_concat(a: Seq<ItemView>, b: Seq<ItemView>)
    ensures
        shims(a + b) == shims(a) + shims(b),
    decreases b.len(),
{
    if b.len() == 0 {
        assert(a + b =~= a);
        assert(shims(a) + shims(b) =~= shims(a));
    } else {
        assert((a + b).drop_last() =~= a + b.drop_last());
        assert((a + b).last() == b.last());
        lemma_shims_concat(a, b.drop_last());
        if entry_kind(b.last()) is Some {
            assert(shims(a + b) =~= shims(a) + shims(b));
        }
    }
}

/// Every item that is kept was there, and none of them brings the
/// compiler's macro interface in.
pub proof fn lemma_kept_items(items: Seq<ItemView>)
    ensures
        no_plugin_import(kept(items)),
        forall|i: int| 0 <= i < kept(items).len() ==> items.contains(#[trigger] kept(items)[i]),
        no_plugin_import(items) ==> kept(items) == items,
    decreases items.len(),
{
    if items.len() > 0 {
        let front = items.drop_last();
        lemma_kept_items(front);
        assert forall|i: int| 0 <= i < kept(items).len() implies items.contains(
            #[trigger] kept(items)[i],
        ) by {
            if i < kept(front).len() {
                let x = kept(front)[i];
                assert(front.contains(x));
                let j = choose|j: int| 0 <= j < front.len() && front[j] == x;
                assert(items[j] == x);
            } else {
                assert(kept(items)[i] == items.last());
                assert(items[items.len() - 1] == items.last());
            }
        }
        if no_plugin_import(items) {
            assert forall|i: int| 0 <= i < front.len() implies !is_plugin_import(
                #[trigger] front[i],
            ) by {
                assert(front[i] == items[i]);
            }
            assert(!is_plugin_import(items[items.len() - 1]));
            assert(kept(items) =~= items);
        }
    }
}

/// Where no item is an entry point, there are no records and no shims,
/// and nothing stands in the way of the rewrite.
pub proof fn lemma_nothing_found(items: Seq<ItemView>)
    requires
        no_entry_points(items),
    ensures
        entry_points(items) == Seq::<ProcMacroFnView>::empty(),
        shims(items) == Seq::<ItemView>::empty(),
        can_rewrite(items),
        Seq::new(items.len(), |i: int| to_inner(items[i])) == items,
    decreases items.len(),
{
    if items.len() > 0 {
        let front = items.drop_last();
        assert forall|i: int| 0 <= i < front.len() implies entry_kind(#[trigger] front[i])
            is None by {
            assert(front[i] == items[i]);
        }
        lemma_nothing_found(front);
        assert(entry_kind(items[items.len() - 1]) is None);
    }
    assert(Seq::new(items.len(), |i: int| to_inner(items[i])) =~= items);
}

/// A module without entry points is rewritten to itself, but for the
/// annotation that silences warnings, which is added, and the
/// declarations of `extern crate proc_macro`, which go: no record is
/// made, no function is changed, none is added, and nothing stands in the
/// way of the rewrite.
pub proof fn lemma_module_without_entry_points(m: ModuleView)
    requires
        no_entry_points(m.items),
    ensures
        entry_points(kept(m.items)) == Seq::<ProcMacroFnView>::empty(),
        rewritten(m).items == kept(m.items),
        rewritten(m).attrs == m.attrs.push(allow_warnings()),
        rewritable(m),
{
    let items = kept(m.items);
    lemma_kept_items(m.items);
    assert forall|i: int| 0 <= i < items.len() implies entry_kind(#[trigger] items[i]) is None by {
        let x = items[i];
        assert(m.items.contains(x));
        let j = choose|j: int| 0 <= j < m.items.len() && m.items[j] == x;
        assert(entry_kind(m.items[j]) is None);
    }
    lemma_nothing_found(items);
    assert(rewritten(m).items =~= items);
}

/// The annotation `#[no_mangle]` marks no entry point.
pub proof fn lemma_no_mangle_marks_nothing()
    ensures
        spec_macro_kind(seq![marker("no_mangle"@)]) is None,
{
    reveal_strlit("no_mangle");
    reveal_strlit("proc_macro");
    reveal_strlit("proc_macro_attribute");
    reveal_strlit("proc_macro_hack");
    reveal_strlit("cfg_attr");
    let a = marker("no_mangle"@);
    assert("no_mangle"@.len() == 9);
    assert("proc_macro"@.len() == 10);
    assert("proc_macro_attribute"@.len() == 20);
    assert("proc_macro_hack"@.len() == 15);
    assert(annotation_kind(a) is None);
    let attrs = seq![a];
    assert(attrs.drop_first() =~= Seq::empty());
    assert(spec_macro_kind(attrs.drop_first()) is None);
}

/// Once rewritten, no item of the module that was there before is an
/// entry point.
pub proof fn lemma_inner_items(items: Seq<ItemView>)
    ensures
        no_entry_points(Seq::new(items.len(), |i: int| to_inner(items[i]))),
{
    let inner = Seq::new(items.len(), |i: int| to_inner(items[i]));
    assert forall|i: int| 0 <= i < inner.len() implies entry_kind(#[trigger] inner[i]) is None by {
        if entry_kind(items[i]) is Some {
            lemma_no_mangle_marks_nothing();
        }
    }
}

/// The shims are entry points again: each has the name, the kind and the
/// annotations of the entry point that it stands in for.
pub proof fn lemma_shims_are_entry_points(items: Seq<ItemView>)
    requires
        can_rewrite(items),
    ensures
        entry_points(shims(items)) == entry_points(items),
        shims(items).len() == entry_points(items).len(),
        forall|i: int| 0 <= i < shims(items).len() ==> (#[trigger] shims(items)[i]) is Function,
    decreases items.len(),
{
    if items.len() > 0 {
        let front = items.drop_last();
        let last = items.last();
        assert forall|i: int|
            0 <= i < front.len() && entry_kind(#[trigger] front[i]) is Some implies can_rewrite_fn(
            front[i]->Function_0,
            entry_kind(front[i]).unwrap(),
        ) by {
            assert(front[i] == items[i]);
        }
        lemma_shims_are_entry_points(front);
        if entry_kind(last) is Some {
            let f = last->Function_0;
            let kind = entry_kind(last).unwrap();
            assert(items[items.len() - 1] == last);
            assert(can_rewrite_fn(f, kind));
            let s = ItemView::Function(shim_of(f, kind));
            assert(shims(items) == shims(front).push(s));
            assert(shims(items).drop_last() =~= shims(front));
            assert(shims(items).last() == s);
            assert(entry_kind(s) == Some(kind));
            assert(record_of(shim_of(f, kind), kind) == record_of(f, kind));
        }
    }
}

/// A second rewrite finds the entry points of the first again, and no
/// others: the functions that it finds are the shims, which carry the
/// markers; the inner functions carry none. So the module that comes out
/// of a rewrite has an entry point exactly where the module that went in
/// had one.
pub proof fn lemma_rewritten_entry_points(m: ModuleView)
    requires
        rewritable(m),
    ensures
        kept(rewritten(m).items) == rewritten(m).items,
        entry_points(rewritten(m).items) == entry_points(kept(m.items)),
{
    let items = kept(m.items);
    let inner = Seq::new(items.len(), |i: int| to_inner(items[i]));
    let out = rewritten(m).items;
    lemma_kept_items(m.items);
    lemma_shims_are_entry_points(items);
    assert forall|i: int| 0 <= i < out.len() implies !is_plugin_import(#[trigger] out[i]) by {
        if i < items.len() {
            assert(!is_plugin_import(items[i]));
        } else {
            assert(out[i] == shims(items)[i - items.len()]);
        }
    }
    lemma_kept_items(out);
    lemma_inner_items(items);
    lemma_nothing_found(inner);
    lemma_entry_points_concat(inner, shims(items));
    assert(entry_points(inner) + entry_points(items) =~= entry_points(items));
}

/// A module that has no entry point has none after the rewrite either.
pub proof fn lemma_rewrite_adds_no_entry_point(m: ModuleView)
    requires
        no_entry_points(m.items),
    ensures
        no_entry_points(rewritten(m).items),
{
    lemma_module_without_entry_points(m);
    lemma_kept_items(m.items);
    let items = kept(m.items);
    assert forall|i: int| 0 <= i < items.len() implies entry_kind(#[trigger] items[i]) is None by {
        let x = items[i];
        assert(m.items.contains(x));
        let j = choose|j: int| 0 <= j < m.items.len() && m.items[j] == x;
        assert(entry_kind(m.items[j]) is None);
    }
}

/// A module whose one entry point is the function `f`, at `i`, is
/// rewritten so: in the place of `f` stands `f_inner`, exported under
/// that name with the C calling convention, each of its typed parameters
/// and its result of the token-stream type, its body as it was; last of
/// all stands the shim,
/// which is what the source of the shim for `f` is parsed to, with the
/// annotations of `f`; every other item that is kept stands as it was; and
/// the one record is that of `f`.
pub proof fn lemma_single_entry_point(m: ModuleView, i: int, kind: ProcMacroKind)
    requires
        0 <= i < m.items.len(),
        entry_kind(m.items[i]) == Some(kind),
        forall|j: int| 0 <= j < m.items.len() && j != i ==> entry_kind(#[trigger] m.items[j]) is None,
    ensures
        ({
            let f = m.items[i]->Function_0;
            let ty = parsed_type(token_stream()).unwrap();
            let at = kept(m.items.take(i)).len() as int;
            let out = rewritten(m).items;
            &&& out.len() == kept(m.items).len() + 1
            &&& at < kept(m.items).len()
            &&& out[at] == ItemView::Function(inner_fn(f, ty))
            &&& inner_fn(f, ty).name == unraw(f.name) + "_inner"@
            &&& inner_fn(f, ty).abi == Some(Some("C"@))
            &&& inner_fn(f, ty).output == Some(ty)
            &&& inner_fn(f, ty).rest == f.rest
            &&& forall|k: int|
                0 <= k < f.inputs.len() && f.inputs[k] is Some ==> #[trigger] inner_fn(
                    f,
                    ty,
                ).inputs[k] == Some(ty)
            &&& out.last() == ItemView::Function(shim_of(f, kind))
            &&& shim_of(f, kind).attrs == f.attrs
            &&& forall|j: int|
                0 <= j < kept(m.items).len() && j != at ==> #[trigger] out[j] == kept(m.items)[j]
            &&& entry_points(kept(m.items)) == seq![record_of(f, kind)]
            &&& rewritable(m) == can_rewrite_fn(f, kind)
        }),
{
    let x = m.items[i];
    let f = x->Function_0;
    let a = m.items.take(i);
    let b = m.items.skip(i + 1);
    let one = seq![x];
    assert(m.items =~= a + one + b);
    lemma_kept_concat(a + one, b);
    lemma_kept_concat(a, one);
    assert(one.drop_last() =~= Seq::empty());
    assert(kept(one.drop_last()) =~= Seq::empty());
    assert(one.last() == x);
    assert(kept(one) =~= one);
    let ka = kept(a);
    let kb = kept(b);
    let items = kept(m.items);
    assert(items == ka + one + kb);
    lemma_kept_items(a);
    lemma_kept_items(b);
    assert forall|j: int| 0 <= j < ka.len() implies entry_kind(#[trigger] ka[j]) is None by {
        let y = ka[j];
        assert(a.contains(y));
        let k = choose|k: int| 0 <= k < a.len() && a[k] == y;
        assert(m.items[k] == y);
    }
    assert forall|j: int| 0 <= j < kb.len() implies entry_kind(#[trigger] kb[j]) is None by {
        let y = kb[j];
        assert(b.contains(y));
        let k = choose|k: int| 0 <= k < b.len() && b[k] == y;
        assert(m.items[i + 1 + k] == y);
    }
    lemma_nothing_found(ka);
    lemma_nothing_found(kb);
    lemma_entry_points_concat(ka + one, kb);
    lemma_entry_points_concat(ka, one);
    lemma_shims_concat(ka + one, kb);
    lemma_shims_concat(ka, one);
    assert(entry_points(one.drop_last()) =~= Seq::empty());
    assert(shims(one.drop_last()) =~= Seq::empty());
    assert(entry_points(one) =~= seq![record_of(f, kind)]);
    assert(shims(one) =~= seq![ItemView::Function(shim_of(f, kind))]);
    assert(entry_points(items) =~= seq![record_of(f, kind)]);
    assert(shims(items) =~= seq![ItemView::Function(shim_of(f, kind))]);
    let at = ka.len() as int;
    assert(items[at] == x);
    let out = rewritten(m).items;
    assert forall|j: int| 0 <= j < items.len() && j != at implies #[trigger] out[j] == items[j] by {
        if j < at {
            assert(items[j] == ka[j]);
        } else {
            assert(items[j] == kb[j - at - 1]);
        }
    }
    assert(can_rewrite(items) == can_rewrite_fn(f, kind)) by {
        if can_rewrite_fn(f, kind) {
            assert forall|j: int|
                0 <= j < items.len() && entry_kind(#[trigger] items[j]) is Some implies can_rewrite_fn(
                items[j]->Function_0,
                entry_kind(items[j]).unwrap(),
            ) by {
                if j < at {
                    assert(items[j] == ka[j]);
                } else if j > at {
                    assert(items[j] == kb[j - at - 1]);
                }
            }
        }
    }
}

} // verus!
