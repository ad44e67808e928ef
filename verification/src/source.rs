//! The rewrite of a macro package's root module: each macro entry point
//! becomes a plain exported function, and a new function of the old name
//! hands its arguments to the compiled module.

use crate::source_lemmas::{lemma_module_without_entry_points, no_entry_points};
use crate::syntax::{
    inner_attr_text, is_function, is_plain_ident, is_word, marker, parsed_type, retyped,
    source_module, unraw, with_function, Annotation, AnnotationView, FnView, ItemHead, ItemView,
    MetaForm, MetaHead, MetaHeadView, MetaOutline, MetaOutlineView, Module, ModuleView,
    SyntaxError,
};
use crate::text::str_eq;
use vstd::prelude::*;

verus! {

/// The four ways in which a function can be declared as a macro entry point.
#[derive(Debug, Copy, Clone, PartialEq, Eq, Structural)]
pub enum ProcMacroKind {
    /// `#[proc_macro]`
    Macro,
    /// `#[proc_macro_derive(..)]`
    Derive,
    /// `#[proc_macro_attribute]`
    Attribute,
    /// `#[proc_macro_hack]`
    ProcMacroHack,
}

/// The kind that an annotation declares by itself, wrappers aside.
pub open spec fn direct_marker(h: MetaHeadView) -> Option<ProcMacroKind> {
    match (h.form, h.ident) {
        (MetaForm::Path, Some(id)) => if id == "proc_macro"@ {
            Some(ProcMacroKind::Macro)
        } else if id == "proc_macro_attribute"@ {
            Some(ProcMacroKind::Attribute)
        } else if id == "proc_macro_hack"@ {
            Some(ProcMacroKind::ProcMacroHack)
        } else {
            None
        },
        (MetaForm::List, Some(id)) => if id == "proc_macro_derive"@ {
            Some(ProcMacroKind::Derive)
        } else {
            None
        },
        _ => None,
    }
}

/// The annotation is `cfg_attr(..)`.
pub open spec fn is_cfg_attr(h: MetaHeadView) -> bool {
    h.form == MetaForm::List && h.ident == Some("cfg_attr"@)
}

/// The kind that an annotation declares: by itself, or as the second
/// argument of `cfg_attr`, whose first is the condition. A marker that
/// lies deeper is not seen.
pub open spec fn spec_macro_meta(m: MetaOutlineView) -> Option<ProcMacroKind> {
    if is_cfg_attr(m.head) {
        if m.nested.len() > 1 && m.nested[1] is Some {
            direct_marker(m.nested[1].unwrap())
        } else {
            None
        }
    } else {
        direct_marker(m.head)
    }
}

/// The kind that an annotation declares, if its content has the shape of one.
pub open spec fn annotation_kind(a: AnnotationView) -> Option<ProcMacroKind> {
    match a.meta {
        Some(m) => spec_macro_meta(m),
        None => None,
    }
}

/// The kind that the first marker among the annotations declares.
pub open spec fn spec_macro_kind(attrs: Seq<AnnotationView>) -> Option<ProcMacroKind>
    decreases attrs.len(),
{
    if attrs.len() == 0 {
        None
    } else if annotation_kind(attrs[0]) is Some {
        annotation_kind(attrs[0])
    } else {
        spec_macro_kind(attrs.drop_first())
    }
}

fn direct(head: &MetaHead) -> (r: Option<ProcMacroKind>)
    ensures
        r == direct_marker(head.deep_view()),
{
    match &head.ident {
        None => None,
        Some(id) => match head.form {
            MetaForm::Path => if str_eq(id.as_str(), "proc_macro") {
                Some(ProcMacroKind::Macro)
            } else if str_eq(id.as_str(), "proc_macro_attribute") {
                Some(ProcMacroKind::Attribute)
            } else if str_eq(id.as_str(), "proc_macro_hack") {
                Some(ProcMacroKind::ProcMacroHack)
            } else {
                None
            },
            MetaForm::List => if str_eq(id.as_str(), "proc_macro_derive") {
                Some(ProcMacroKind::Derive)
            } else {
                None
            },
            MetaForm::NameValue => None,
        },
    }
}

fn names_cfg_attr(head: &MetaHead) -> (r: bool)
    ensures
        r == is_cfg_attr(head.deep_view()),
{
    match (&head.form, &head.ident) {
        (MetaForm::List, Some(id)) => str_eq(id.as_str(), "cfg_attr"),
        _ => false,
    }
}

/// The kind that an annotation declares: `proc_macro`,
/// `proc_macro_derive(..)`, `proc_macro_attribute` or `proc_macro_hack`,
/// alone or as the second argument of `cfg_attr`.
pub fn macro_meta(meta: &MetaOutline) -> (r: Option<ProcMacroKind>)
    ensures
        r == spec_macro_meta(meta.deep_view()),
{
    if names_cfg_attr(&meta.head) {
        if meta.nested.len() > 1 {
            assert(meta.nested.deep_view()[1] == meta.nested@[1].deep_view());
            match &meta.nested[1] {
                Some(head) => direct(head),
                None => None,
            }
        } else {
            None
        }
    } else {
        direct(&meta.head)
    }
}

/// The kind of entry point that a function with these annotations is:
/// that of the first annotation that declares one.
pub fn macro_kind(attrs: &Vec<Annotation>) -> (r: Option<ProcMacroKind>)
    ensures
        r == spec_macro_kind(attrs.deep_view()),
{
    let ghost all = attrs.deep_view();
    let mut i: usize = 0;
    assert(all.skip(0) =~= all);
    while i < attrs.len()
        invariant
            i <= attrs.len(),
            all == attrs.deep_view(),
            spec_macro_kind(all) == spec_macro_kind(all.skip(i as int)),
        decreases attrs.len() - i,
    {
        let ghost rest = all.skip(i as int);
        assert(rest[0] == attrs@[i as int].deep_view());
        assert(rest.drop_first() =~= all.skip(i + 1));
        let found = match &attrs[i].meta {
            Some(meta) => macro_meta(meta),
            None => None,
        };
        if found.is_some() {
            return found;
        }
        i += 1;
    }
    None
}

/// A macro entry point, as found: its name, its kind, and the
/// annotations that it carried, each by its text.
#[derive(Debug, Clone)]
pub struct ProcMacroFn {
    pub name: String,
    pub attrs: Vec<String>,
    pub kind: ProcMacroKind,
}

/// The mathematical value of a [`ProcMacroFn`].
pub struct ProcMacroFnView {
    pub name: Seq<char>,
    pub attrs: Seq<Seq<char>>,
    pub kind: ProcMacroKind,
}

impl DeepView for ProcMacroFn {
    type V = ProcMacroFnView;

    open spec fn deep_view(&self) -> ProcMacroFnView {
        ProcMacroFnView { name: self.name@, attrs: self.attrs.deep_view(), kind: self.kind }
    }
}

impl ProcMacroKind {
    /// The method of the dispatch handle that runs an entry point of this kind.
    pub open spec fn spec_method(self) -> Seq<char> {
        match self {
            ProcMacroKind::Macro => "proc_macro"@,
            ProcMacroKind::ProcMacroHack => "proc_macro"@,
            ProcMacroKind::Derive => "proc_macro_derive"@,
            ProcMacroKind::Attribute => "proc_macro_attribute"@,
        }
    }

    /// The method of the dispatch handle that runs an entry point of this kind.
    pub fn method(self) -> (r: &'static str)
        ensures
            r@ == self.spec_method(),
    {
        match self {
            ProcMacroKind::Macro => "proc_macro",
            ProcMacroKind::ProcMacroHack => "proc_macro",
            ProcMacroKind::Derive => "proc_macro_derive",
            ProcMacroKind::Attribute => "proc_macro_attribute",
        }
    }
}

/// The function that stands in for the entry point `name`: it has the
/// entry point's name and hands its arguments, with that name as a string,
/// to the dispatch handle `MACRO`. An attribute macro takes the
/// attribute's arguments and the item; the other kinds take one input.
pub open spec fn shim_source(name: Seq<char>, kind: ProcMacroKind) -> Seq<char> {
    match kind {
        ProcMacroKind::Attribute => "pub fn "@ + name
            + "(args: proc_macro::TokenStream, input: proc_macro::TokenStream) -> proc_macro::TokenStream { MACRO."@
            + kind.spec_method() + "(\""@ + name + "\", args, input) }"@,
        _ => "pub fn "@ + name
            + "(input: proc_macro::TokenStream) -> proc_macro::TokenStream { MACRO."@
            + kind.spec_method() + "(\""@ + name + "\", input) }"@,
    }
}

/// The source of the function that stands in for the entry point `name`.
pub fn shim(name: &str, kind: ProcMacroKind) -> (r: String)
    ensures
        r@ == shim_source(name@, kind),
{
    let mut r = "pub fn ".to_owned();
    r.append(name);
    match kind {
        ProcMacroKind::Attribute => {
            r.append(
                "(args: proc_macro::TokenStream, input: proc_macro::TokenStream) -> proc_macro::TokenStream { MACRO.",
            );
        },
        _ => {
            r.append("(input: proc_macro::TokenStream) -> proc_macro::TokenStream { MACRO.");
        },
    }
    r.append(kind.method());
    r.append("(\"");
    r.append(name);
    match kind {
        ProcMacroKind::Attribute => {
            r.append("\", args, input) }");
        },
        _ => {
            r.append("\", input) }");
        },
    }
    r
}

/// The declaration that brings the compiler's macro interface in, which
/// a dynamic library has no use for.
pub open spec fn is_plugin_import(item: ItemView) -> bool {
    item == ItemView::ExternCrate("proc_macro"@)
}

/// `items` without the declarations that bring the compiler's macro interface in.
pub open spec fn kept(items: Seq<ItemView>) -> Seq<ItemView>
    decreases items.len(),
{
    if items.len() == 0 {
        items
    } else if is_plugin_import(items.last()) {
        kept(items.drop_last())
    } else {
        kept(items.drop_last()).push(items.last())
    }
}

/// The kind of entry point that an item is, if it is one.
pub open spec fn entry_kind(item: ItemView) -> Option<ProcMacroKind> {
    match item {
        ItemView::Function(f) => spec_macro_kind(f.attrs),
        _ => None,
    }
}

/// The texts of annotations.
pub open spec fn texts(attrs: Seq<AnnotationView>) -> Seq<Seq<char>> {
    Seq::new(attrs.len(), |j: int| attrs[j].text)
}

/// The record of the entry point `f`.
pub open spec fn record_of(f: FnView, kind: ProcMacroKind) -> ProcMacroFnView {
    ProcMacroFnView { name: f.name, attrs: texts(f.attrs), kind }
}

/// The entry points among `items`, in their order.
pub open spec fn entry_points(items: Seq<ItemView>) -> Seq<ProcMacroFnView>
    decreases items.len(),
{
    if items.len() == 0 {
        Seq::empty()
    } else if entry_kind(items.last()) is Some {
        entry_points(items.drop_last()).push(
            record_of(items.last()->Function_0, entry_kind(items.last()).unwrap()),
        )
    } else {
        entry_points(items.drop_last())
    }
}

/// The type that an exported function takes and returns token streams in.
pub open spec fn token_stream() -> Seq<char> {
    "proc_macro2::TokenStream"@
}

/// What the entry point `f` becomes: a function `f_inner`, exported under
/// that very name with the C calling convention, whose typed parameters
/// and result have the type `ty`. Its visibility and its body stay. A name
/// that is written as a raw identifier loses its `r#` on the way.
pub open spec fn inner_fn(f: FnView, ty: Seq<char>) -> FnView {
    FnView {
        name: unraw(f.name) + "_inner"@,
        attrs: seq![marker("no_mangle"@)],
        abi: Some(Some("C"@)),
        inputs: retyped(f.inputs, ty),
        output: Some(ty),
        rest: f.rest,
    }
}

/// Each entry point made its inner function; any other item as it is.
pub open spec fn to_inner(item: ItemView) -> ItemView {
    if entry_kind(item) is Some {
        ItemView::Function(inner_fn(item->Function_0, parsed_type(token_stream()).unwrap()))
    } else {
        item
    }
}

/// The one function that the source of a shim is parsed to.
pub open spec fn shim_skeleton(name: Seq<char>, kind: ProcMacroKind) -> FnView {
    source_module(shim_source(name, kind)).unwrap().items[0]->Function_0
}

/// The source of the shim for `name` is one function of that name
/// without annotations.
pub open spec fn shim_parses(name: Seq<char>, kind: ProcMacroKind) -> bool {
    match source_module(shim_source(name, kind)) {
        Some(m) => m.items.len() == 1 && match m.items[0] {
            ItemView::Function(f) => f.name == name && f.attrs.len() == 0,
            _ => false,
        },
        None => false,
    }
}

/// The function that stands in for the entry point `f`: the shim, with
/// the annotations that `f` carried.
pub open spec fn shim_of(f: FnView, kind: ProcMacroKind) -> FnView {
    FnView { attrs: f.attrs, ..shim_skeleton(f.name, kind) }
}

/// The functions that stand in for the entry points among `items`, in their order.
pub open spec fn shims(items: Seq<ItemView>) -> Seq<ItemView>
    decreases items.len(),
{
    if items.len() == 0 {
        Seq::empty()
    } else if entry_kind(items.last()) is Some {
        shims(items.drop_last()).push(
            ItemView::Function(
                shim_of(items.last()->Function_0, entry_kind(items.last()).unwrap()),
            ),
        )
    } else {
        shims(items.drop_last())
    }
}

/// The entry point `f` can be rewritten: the texts that the rewrite puts
/// in, the source of the shim and the token-stream type, are taken by the
/// parser for what they are meant to be.
pub open spec fn can_rewrite_fn(f: FnView, kind: ProcMacroKind) -> bool {
    shim_parses(f.name, kind) && parsed_type(token_stream()) is Some
}

/// Every entry point among `items` can be rewritten.
pub open spec fn can_rewrite(items: Seq<ItemView>) -> bool {
    forall|i: int|
        0 <= i < items.len() && entry_kind(#[trigger] items[i]) is Some ==> can_rewrite_fn(
            items[i]->Function_0,
            entry_kind(items[i]).unwrap(),
        )
}

/// The annotation `#![allow(warnings)]`, which silences the compiler's
/// warnings on a whole module, as it is printed.
pub open spec fn allow_warnings() -> Seq<char> {
    inner_attr_text("allow"@, "warnings"@)
}

/// The module `m` can be rewritten: each of its entry points can. A
/// module without entry points always can.
pub open spec fn rewritable(m: ModuleView) -> bool {
    can_rewrite(kept(m.items))
}

/// The module `m`, rewritten: warnings are silenced; the compiler's macro
/// interface is no longer brought in; each entry point has become its
/// inner function; and after all items stand the functions that stand in
/// for the entry points.
pub open spec fn rewritten(m: ModuleView) -> ModuleView {
    let items = kept(m.items);
    ModuleView {
        attrs: m.attrs.push(allow_warnings()),
        items: Seq::new(items.len(), |i: int| to_inner(items[i])) + shims(items),
    }
}

/// Removes each `extern crate proc_macro;`.
pub fn remove_extern_procmacro(module: &mut Module)
    ensures
        final(module)@ == (ModuleView { items: kept(old(module)@.items), ..old(module)@ }),
{
    let ghost orig = module@.items;
    let ghost attrs = module@.attrs;
    let ghost mut k: int = 0;
    let mut i: usize = 0;
    assert(orig.take(0) =~= Seq::empty());
    assert(orig.skip(0) =~= orig);
    assert(kept(orig.take(0)) + orig.skip(0) =~= orig);
    while i < module.len()
        invariant
            0 <= k <= orig.len(),
            i == kept(orig.take(k)).len(),
            module@.attrs == attrs,
            module@.items == kept(orig.take(k)) + orig.skip(k),
        decreases orig.len() - k,
    {
        let head = module.head(i);
        let is_import = match &head {
            ItemHead::ExternCrate { name } => str_eq(name.as_str(), "proc_macro"),
            _ => false,
        };
        proof {
            assert(module@.items[i as int] == orig[k]);
            assert(is_import == is_plugin_import(orig[k]));
            assert(orig.take(k + 1).drop_last() =~= orig.take(k));
            assert(orig.take(k + 1).last() == orig[k]);
        }
        if is_import {
            module.remove(i);
            assert(module@.items =~= kept(orig.take(k + 1)) + orig.skip(k + 1));
        } else {
            assert(module@.items =~= kept(orig.take(k + 1)) + orig.skip(k + 1));
            i += 1;
        }
        proof {
            k = k + 1;
        }
    }
    assert(orig.take(k) =~= orig);
    assert(module@.items =~= kept(orig));
}

/// Whether the parsed source of a shim is one function named `name`
/// without annotations.
fn is_skeleton(parsed: &Module, name: &str) -> (r: bool)
    ensures
        r == (parsed@.items.len() == 1 && match parsed@.items[0] {
            ItemView::Function(f) => f.name == name@ && f.attrs.len() == 0,
            _ => false,
        }),
{
    if parsed.len() != 1 {
        return false;
    }
    match parsed.head(0) {
        ItemHead::Function { name: found, attrs, .. } => str_eq(found.as_str(), name) && attrs == 0,
        _ => false,
    }
}

/// The names that the rewrite puts in are well-formed.
proof fn lemma_fixed_names()
    ensures
        is_plain_ident("no_mangle"@),
        is_plain_ident("allow"@),
        is_plain_ident("warnings"@),
        is_word("_inner"@),
{
    reveal_strlit("no_mangle");
    reveal_strlit("_inner");
    reveal_strlit("allow");
    reveal_strlit("warnings");
    let c = "allow"@;
    assert(c.len() == 5);
    assert(c[0] == 'a' && c[1] == 'l' && c[2] == 'l' && c[3] == 'o' && c[4] == 'w');
    let d = "warnings"@;
    assert(d.len() == 8);
    assert(d[0] == 'w' && d[1] == 'a' && d[2] == 'r' && d[3] == 'n' && d[4] == 'i' && d[5] == 'n'
        && d[6] == 'g' && d[7] == 's');
    let a = "no_mangle"@;
    assert(a.len() == 9);
    assert(a[0] == 'n' && a[1] == 'o' && a[2] == '_' && a[3] == 'm' && a[4] == 'a' && a[5] == 'n'
        && a[6] == 'g' && a[7] == 'l' && a[8] == 'e');
    let b = "_inner"@;
    assert(b.len() == 6);
    assert(b[0] == '_' && b[1] == 'i' && b[2] == 'n' && b[3] == 'n' && b[4] == 'e' && b[5] == 'r');
}

/// Rewrites the entry point at `i`, a function named `name`: its shim is
/// added after all items and gets its annotations; the function itself
/// becomes the inner function. Says whether that could be done; where it
/// could not, the module is of no further use.
fn rewrite_entry(module: &mut Module, i: usize, name: &str, kind: ProcMacroKind) -> (ok: bool)
    requires
        is_function(old(module)@.items, i as int),
        old(module)@.items[i as int]->Function_0.name == name@,
    ensures
        ok == can_rewrite_fn(old(module)@.items[i as int]->Function_0, kind),
        ok ==> final(module)@ == (ModuleView {
            attrs: old(module)@.attrs,
            items: with_function(
                old(module)@.items,
                i as int,
                inner_fn(
                    old(module)@.items[i as int]->Function_0,
                    parsed_type(token_stream()).unwrap(),
                ),
            ).push(
                ItemView::Function(shim_of(old(module)@.items[i as int]->Function_0, kind)),
            ),
        }),
{
    let ghost before = module@;
    let ghost f = before.items[i as int]->Function_0;
    let text = shim(name, kind);
    let parsed = match Module::parse(text.as_str()) {
        Ok(parsed) => parsed,
        Err(_) => {
            return false;
        },
    };
    if !is_skeleton(&parsed, name) {
        return false;
    }
    assert(shim_parses(name@, kind));
    let ghost skeleton = parsed@.items[0]->Function_0;
    assert(skeleton == shim_skeleton(f.name, kind));
    let last = module.len();
    module.append_items(parsed);
    assert(module@.items[last as int] == ItemView::Function(skeleton));
    module.move_attrs(i, last);
    proof {
        lemma_fixed_names();
    }
    module.set_marker(i, "no_mangle");
    module.set_abi(i, "C");
    if !module.retype(i, "proc_macro2::TokenStream") {
        return false;
    }
    module.rename(i, "_inner");
    proof {
        let t = parsed_type(token_stream()).unwrap();
        let goal = with_function(before.items, i as int, inner_fn(f, t)).push(
            ItemView::Function(shim_of(f, kind)),
        );
        assert(module@.items.len() == goal.len());
        assert(module@.items[i as int] == goal[i as int]);
        assert(module@.items[last as int] == goal[last as int]);
        assert(module@.items =~= goal);
    }
    true
}

/// The texts of annotations.
fn texts_of(attrs: &Vec<Annotation>) -> (r: Vec<String>)
    ensures
        r.deep_view() == texts(attrs.deep_view()),
{
    let mut r: Vec<String> = Vec::new();
    let mut j: usize = 0;
    while j < attrs.len()
        invariant
            j <= attrs.len(),
            r@.len() == j,
            forall|k: int| 0 <= k < j ==> (#[trigger] r@[k])@ == attrs@[k].text@,
        decreases attrs.len() - j,
    {
        r.push(attrs[j].text.clone());
        j += 1;
    }
    assert(r.deep_view() =~= texts(attrs.deep_view()));
    r
}

/// Why a source module was not rewritten.
#[derive(Debug, Clone)]
pub enum SourceError {
    /// The text is not Rust source.
    Parse(SyntaxError),
    /// An entry point could not be rewritten: a text that the rewrite puts
    /// in, the source of its shim or the token-stream type, was not taken
    /// by the parser for what it is meant to be.
    Rewrite,
}

impl SourceError {
    pub open spec fn spec_message(self) -> Seq<char> {
        match self {
            SourceError::Parse(e) => e.message@,
            SourceError::Rewrite => "a macro entry point cannot be rewritten"@,
        }
    }

    /// What to tell the user: of a text that is not Rust source, the
    /// parser's words.
    pub fn message(&self) -> (r: String)
        ensures
            r@ == self.spec_message(),
    {
        match self {
            SourceError::Parse(e) => e.message.clone(),
            SourceError::Rewrite => "a macro entry point cannot be rewritten".to_owned(),
        }
    }
}

/// `items` with each entry point before `i` made its inner function.
pub open spec fn inner_before(items: Seq<ItemView>, i: int) -> Seq<ItemView> {
    Seq::new(
        items.len(),
        |j: int|
            if j < i {
                to_inner(items[j])
            } else {
                items[j]
            },
    )
}

/// Rewrites the root module of a macro package: warnings are silenced,
/// `extern crate proc_macro;` goes, each function that is marked as a
/// macro entry point becomes `<name>_inner`, exported with the C calling
/// convention and taking and returning `proc_macro2::TokenStream`, and a
/// function of the old name with the old annotations is added that hands
/// its arguments to the dispatch handle. Returns the entry points, in
/// their order, and the text of the rewritten module. A module that
/// parses and has no entry point is always rewritten, and gives no record.
pub fn librs(input: &str) -> (r: Result<(Vec<ProcMacroFn>, String), SourceError>)
    ensures
        source_module(input@) is Some && no_entry_points(source_module(input@).unwrap().items)
            ==> r is Ok && r->Ok_0.0@.len() == 0,
        match r {
            Ok((fns, text)) => source_module(input@) is Some && rewritable(
                source_module(input@).unwrap(),
            ) && fns.deep_view() == entry_points(kept(source_module(input@).unwrap().items))
                && exists|out: Module|
                out@ == rewritten(source_module(input@).unwrap()) && text@ == #[trigger] out.text(),
            Err(SourceError::Parse(_)) => source_module(input@) is None,
            Err(SourceError::Rewrite) => source_module(input@) is Some && !rewritable(
                source_module(input@).unwrap(),
            ),
        },
{
    let mut module = match Module::parse(input) {
        Ok(module) => module,
        Err(e) => {
            return Err(SourceError::Parse(e));
        },
    };
    let ghost m0 = module@;
    proof {
        lemma_fixed_names();
        if no_entry_points(m0.items) {
            lemma_module_without_entry_points(m0);
        }
    }
    module.push_inner_attr("allow", "warnings");
    remove_extern_procmacro(&mut module);
    let ghost items = module@.items;
    let ghost attrs = module@.attrs;
    let n = module.len();
    let mut fns: Vec<ProcMacroFn> = Vec::new();
    let mut i: usize = 0;
    proof {
        assert(items.take(0) =~= Seq::empty());
        assert(module@.items =~= inner_before(items, 0) + shims(items.take(0)));
        assert(fns.deep_view() =~= entry_points(items.take(0)));
    }
    while i < n
        invariant
            i <= n,
            n == items.len(),
            module@.attrs == attrs,
            module@.items == inner_before(items, i as int) + shims(items.take(i as int)),
            fns.deep_view() == entry_points(items.take(i as int)),
            forall|j: int|
                0 <= j < i && entry_kind(#[trigger] items[j]) is Some ==> can_rewrite_fn(
                    items[j]->Function_0,
                    entry_kind(items[j]).unwrap(),
                ),
            items == kept(m0.items),
            source_module(input@) == Some(m0),
            no_entry_points(m0.items) ==> rewritable(m0),
        decreases n - i,
    {
        let ghost before = module@.items;
        let ghost item = items[i as int];
        proof {
            assert(before[i as int] == item);
            assert(items.take(i + 1).drop_last() =~= items.take(i as int));
            assert(items.take(i + 1).last() == item);
        }
        let mut found = false;
        match module.head(i) {
            ItemHead::Function { name, .. } => {
                let annotations = module.annotations(i);
                match macro_kind(&annotations) {
                    Some(kind) => {
                        if !rewrite_entry(&mut module, i, name.as_str(), kind) {
                            assert(!can_rewrite(items));
                            return Err(SourceError::Rewrite);
                        }
                        let record = ProcMacroFn { name, attrs: texts_of(&annotations), kind };
                        assert(record.deep_view() == record_of(item->Function_0, kind));
                        let ghost old_fns = fns.deep_view();
                        fns.push(record);
                        assert(fns.deep_view() =~= old_fns.push(record.deep_view()));
                        found = true;
                    },
                    None => {},
                }
            },
            _ => {},
        }
        proof {
            assert(found == (entry_kind(item) is Some));
            let goal = inner_before(items, i + 1) + shims(items.take(i + 1));
            assert(module@.items.len() == goal.len());
            assert forall|j: int| 0 <= j < goal.len() implies module@.items[j] == goal[j] by {
                if j < n {
                    assert(before[j] == inner_before(items, i as int)[j]);
                } else {
                    if j < before.len() {
                        assert(before[j] == shims(items.take(i as int))[j - n]);
                    }
                }
            }
            assert(module@.items =~= goal);
        }
        i += 1;
    }
    proof {
        assert(items.take(n as int) =~= items);
        assert(inner_before(items, n as int) =~= Seq::new(items.len(), |j: int| to_inner(items[j])));
        assert(module@ == rewritten(m0));
    }
    assert(fns.deep_view().len() == fns@.len());
    let text = module.print();
    Ok((fns, text))
}

} // verus!
