//! The syntax tree of a source module, as far as this library reads and
//! edits it: its annotations, its items, and the signatures of its functions.

use proc_macro2::{Delimiter, Group, Ident, Span, TokenStream, TokenTree};
use quote::ToTokens;
use syn::ext::IdentExt;
use syn::{File, FnArg, Item, Meta, NestedMeta};
use vstd::prelude::*;

verus! {

/// The three forms of an annotation's content: `name`, `name(..)`, `name = ..`.
#[derive(Debug, Clone, Copy, PartialEq, Eq, Structural)]
pub enum MetaForm {
    Path,
    List,
    NameValue,
}

/// The form of an annotation's content, and its name where that is one
/// plain identifier.
#[derive(Debug, Clone)]
pub struct MetaHead {
    pub form: MetaForm,
    pub ident: Option<String>,
}

/// An annotation's content, two levels deep: its head and, for a list, the
/// head of each argument, `None` for an argument that is a literal.
#[derive(Debug, Clone)]
pub struct MetaOutline {
    pub head: MetaHead,
    pub nested: Vec<Option<MetaHead>>,
}

/// An annotation: its text, and its content where it has the shape of one.
#[derive(Debug, Clone)]
pub struct Annotation {
    pub text: String,
    pub meta: Option<MetaOutline>,
}

/// What an item is, as far as the rewrite tells items apart.
#[derive(Debug, Clone)]
pub enum ItemHead {
    /// A function, with its name, the number of its annotations and the
    /// number of its parameters.
    Function { name: String, attrs: usize, inputs: usize },
    /// An `extern crate` declaration of the named package.
    ExternCrate { name: String },
    Other,
}

pub struct MetaHeadView {
    pub form: MetaForm,
    pub ident: Option<Seq<char>>,
}

pub struct MetaOutlineView {
    pub head: MetaHeadView,
    pub nested: Seq<Option<MetaHeadView>>,
}

pub struct AnnotationView {
    pub text: Seq<char>,
    pub meta: Option<MetaOutlineView>,
}

/// A function: its name, its annotations, its calling convention (`None`
/// for Rust's own, `Some(None)` for a bare `extern`), the type of each
/// parameter (`None` for a receiver), the return type, if one is written,
/// and the text of all the rest: visibility, qualifiers, generics, the
/// parameters' patterns and the body.
pub struct FnView {
    pub name: Seq<char>,
    pub attrs: Seq<AnnotationView>,
    pub abi: Option<Option<Seq<char>>>,
    pub inputs: Seq<Option<Seq<char>>>,
    pub output: Option<Seq<char>>,
    pub rest: Seq<char>,
}

pub enum ItemView {
    Function(FnView),
    /// An `extern crate` declaration of the named package.
    ExternCrate(Seq<char>),
    /// Any other item, by its text.
    Other(Seq<char>),
}

/// A source module: its own annotations, by their text, and its items.
pub struct ModuleView {
    pub attrs: Seq<Seq<char>>,
    pub items: Seq<ItemView>,
}

impl DeepView for MetaHead {
    type V = MetaHeadView;

    open spec fn deep_view(&self) -> MetaHeadView {
        MetaHeadView { form: self.form, ident: self.ident.deep_view() }
    }
}

impl DeepView for MetaOutline {
    type V = MetaOutlineView;

    open spec fn deep_view(&self) -> MetaOutlineView {
        MetaOutlineView { head: self.head.deep_view(), nested: self.nested.deep_view() }
    }
}

impl DeepView for Annotation {
    type V = AnnotationView;

    open spec fn deep_view(&self) -> AnnotationView {
        AnnotationView { text: self.text@, meta: self.meta.deep_view() }
    }
}

impl ItemHead {
    /// This head is that of the item `item`.
    pub open spec fn is_head_of(self, item: ItemView) -> bool {
        match self {
            ItemHead::Function { name, attrs, inputs } => item matches ItemView::Function(f)
                && f.name == name@ && f.attrs.len() == attrs && f.inputs.len() == inputs,
            ItemHead::ExternCrate { name } => item == ItemView::ExternCrate(name@),
            ItemHead::Other => item is Other,
        }
    }
}

/// The item at `i` is a function.
pub open spec fn is_function(items: Seq<ItemView>, i: int) -> bool {
    0 <= i < items.len() && items[i] is Function
}

/// `items` with the function at `i` replaced by `f`.
pub open spec fn with_function(items: Seq<ItemView>, i: int, f: FnView) -> Seq<ItemView> {
    items.update(i, ItemView::Function(f))
}

/// The text of the annotation `#[name]`, as its tokens are printed: the
/// pound sign, a space, and the name in brackets.
pub open spec fn marker_text(name: Seq<char>) -> Seq<char> {
    "# ["@ + name + "]"@
}

/// The text of the module's own annotation `#![name(arg)]`, as its tokens
/// are printed.
pub open spec fn inner_attr_text(name: Seq<char>, arg: Seq<char>) -> Seq<char> {
    "# ! ["@ + name + " ("@ + arg + ")]"@
}

/// The annotation `#[name]`.
pub open spec fn marker(name: Seq<char>) -> AnnotationView {
    AnnotationView {
        text: marker_text(name),
        meta: Some(
            MetaOutlineView {
                head: MetaHeadView { form: MetaForm::Path, ident: Some(name) },
                nested: Seq::empty(),
            },
        ),
    }
}

/// `inputs` with the type of each of the first `n` parameters that has
/// one made `ty`.
pub open spec fn retyped_before(inputs: Seq<Option<Seq<char>>>, ty: Seq<char>, n: int) -> Seq<
    Option<Seq<char>>,
> {
    Seq::new(
        inputs.len(),
        |k: int|
            if k < n && inputs[k] is Some {
                Some(ty)
            } else {
                inputs[k]
            },
    )
}

/// `inputs` with the type of each parameter that has one made `ty`.
pub open spec fn retyped(inputs: Seq<Option<Seq<char>>>, ty: Seq<char>) -> Seq<Option<Seq<char>>> {
    retyped_before(inputs, ty, inputs.len() as int)
}

/// A name without the `r#` of a raw identifier.
pub open spec fn unraw(s: Seq<char>) -> Seq<char> {
    if is_raw(s) {
        s.skip(2)
    } else {
        s
    }
}

/// A name of letters, digits and underscores.
pub open spec fn is_word(s: Seq<char>) -> bool {
    forall|i: int|
        0 <= i < s.len() ==> {
            let c = #[trigger] s[i];
            ('a' <= c && c <= 'z') || ('A' <= c && c <= 'Z') || ('0' <= c && c <= '9') || c == '_'
        }
}

/// A word that does not start with a digit.
pub open spec fn is_plain_ident(s: Seq<char>) -> bool {
    s.len() > 0 && is_word(s) && !('0' <= s[0] && s[0] <= '9')
}

/// A name written as a raw identifier, `r#name`.
pub open spec fn is_raw(s: Seq<char>) -> bool {
    s.len() >= 2 && s[0] == 'r' && s[1] == '#'
}

#[verifier::external_type_specification]
#[verifier::external_body]
pub struct ExFile(File);

#[verifier::external_type_specification]
#[verifier::external_body]
pub struct ExSynError(syn::Error);

/// The annotations of a module itself, each by its text, in their order.
pub uninterp spec fn file_attrs(file: File) -> Seq<Seq<char>>;

/// The items of a module, in their order.
pub uninterp spec fn file_items(file: File) -> Seq<ItemView>;

/// The text that a module is printed as.
pub uninterp spec fn file_text(file: File) -> Seq<char>;

/// The module that a text is parsed to; `None` where it is not Rust source.
pub uninterp spec fn source_module(text: Seq<char>) -> Option<ModuleView>;

/// The type that a text is parsed to, as it is printed; `None` where the
/// text is no type.
pub uninterp spec fn parsed_type(text: Seq<char>) -> Option<Seq<char>>;

/// `syn::parse_str::<syn::File>`: the text is parsed as a source module. It
/// is accepted exactly when it is one, and the tree then holds the
/// annotations and items of the text.
#[verifier::external_body]
fn parse_file(text: &str) -> (r: Result<File, syn::Error>)
    ensures
        match r {
            Ok(file) => source_module(text@) == Some(
                ModuleView { attrs: file_attrs(file), items: file_items(file) },
            ),
            Err(_) => source_module(text@) is None,
        },
{
    syn::parse_str::<File>(text)
}

/// `syn::Error`'s `Display`: the parser's message. Nothing is claimed of the text.
#[verifier::external_body]
fn error_message(e: &syn::Error) -> String {
    e.to_string()
}

/// `ToTokens::to_token_stream` and the token stream's `Display`: the module as text.
#[verifier::external_body]
fn print_file(file: &File) -> (r: String)
    ensures
        r@ == file_text(*file),
{
    file.to_token_stream().to_string()
}

/// `Vec::len` of `File::items`.
#[verifier::external_body]
fn item_count(file: &File) -> (n: usize)
    ensures
        n == file_items(*file).len(),
{
    file.items.len()
}

/// The variant of the `syn::Item` at `i`, with the identifier of a
/// function or of an `extern crate` declaration.
#[verifier::external_body]
fn item_head(file: &File, i: usize) -> (r: ItemHead)
    requires
        i < file_items(*file).len(),
    ensures
        r.is_head_of(file_items(*file)[i as int]),
{
    match &file.items[i] {
        Item::Fn(f) => ItemHead::Function { name: f.sig.ident.to_string(), attrs: f.attrs.len(), inputs: f.sig.inputs.len() },
        Item::ExternCrate(e) => ItemHead::ExternCrate { name: e.ident.to_string() },
        _ => ItemHead::Other,
    }
}

/// The tokens of the annotation `j` of the function at `i`, as text.
#[verifier::external_body]
fn fn_attr_text(file: &File, i: usize, j: usize) -> (r: String)
    requires
        is_function(file_items(*file), i as int),
        j < file_items(*file)[i as int]->Function_0.attrs.len(),
    ensures
        r@ == file_items(*file)[i as int]->Function_0.attrs[j as int].text,
{
    match &file.items[i] {
        Item::Fn(f) => f.attrs[j].to_token_stream().to_string(),
        _ => String::new(),
    }
}

/// `Attribute::parse_meta` on the annotation `j` of the function at `i`:
/// its content, where it has the shape of one. `Path::get_ident` gives the
/// names, the variants of `Meta` and `NestedMeta` the forms.
#[verifier::external_body]
fn fn_attr_meta(file: &File, i: usize, j: usize) -> (r: Option<MetaOutline>)
    requires
        is_function(file_items(*file), i as int),
        j < file_items(*file)[i as int]->Function_0.attrs.len(),
    ensures
        r.deep_view() == file_items(*file)[i as int]->Function_0.attrs[j as int].meta,
{
    let head = |m: &Meta| MetaHead {
        form: match m { Meta::Path(_) => MetaForm::Path, Meta::List(_) => MetaForm::List, _ => MetaForm::NameValue },
        ident: m.path().get_ident().map(ToString::to_string),
    };
    let Item::Fn(f) = &file.items[i] else { return None; };
    let meta = f.attrs[j].parse_meta().ok()?;
    let nested = match &meta {
        Meta::List(l) => l.nested.iter().map(|n| match n { NestedMeta::Meta(m) => Some(head(m)), _ => None }).collect(),
        _ => Vec::new(),
    };
    Some(MetaOutline { head: head(&meta), nested })
}

/// The module gets one more annotation of its own, `#![name(arg)]`,
/// built with `Ident::new` and `Group::new`, after those that it has.
#[verifier::external_body]
fn push_inner_attr(file: &mut File, name: &str, arg: &str)
    requires
        is_plain_ident(name@),
        is_plain_ident(arg@),
    ensures
        file_attrs(*final(file)) == file_attrs(*old(file)).push(inner_attr_text(name@, arg@)),
        file_items(*final(file)) == file_items(*old(file)),
{
    let inner = TokenTree::Ident(Ident::new(arg, Span::call_site()));
    file.attrs.push(syn::Attribute {
        pound_token: Default::default(),
        style: syn::AttrStyle::Inner(Default::default()),
        bracket_token: Default::default(),
        path: Ident::new(name, Span::call_site()).into(),
        tokens: TokenTree::Group(Group::new(Delimiter::Parenthesis, inner.into())).into(),
    });
}

/// `Vec::extend` on `File::items`: the items of `other` are added after
/// those of `file`.
#[verifier::external_body]
fn extend_items(file: &mut File, other: File)
    ensures
        file_attrs(*final(file)) == file_attrs(*old(file)),
        file_items(*final(file)) == file_items(*old(file)) + file_items(other),
{
    file.items.extend(other.items);
}

/// `Vec::remove` on `File::items`.
#[verifier::external_body]
fn remove_item(file: &mut File, i: usize)
    requires
        i < file_items(*old(file)).len(),
    ensures
        file_attrs(*final(file)) == file_attrs(*old(file)),
        file_items(*final(file)) == file_items(*old(file)).remove(i as int),
{
    file.items.remove(i);
}

/// The annotations of the function at `from` are taken from it, with
/// `mem::take`, and become those of the function at `to`.
#[verifier::external_body]
fn take_attrs(file: &mut File, from: usize, to: usize)
    requires
        from != to,
        is_function(file_items(*old(file)), from as int),
        is_function(file_items(*old(file)), to as int),
    ensures
        file_attrs(*final(file)) == file_attrs(*old(file)),
        file_items(*final(file)) == ({
            let items = file_items(*old(file));
            let source = items[from as int]->Function_0;
            let target = items[to as int]->Function_0;
            with_function(
                with_function(items, from as int, FnView { attrs: Seq::empty(), ..source }),
                to as int,
                FnView { attrs: source.attrs, ..target },
            )
        }),
{
    let taken = match &mut file.items[from] {
        Item::Fn(f) => std::mem::take(&mut f.attrs),
        _ => Vec::new(),
    };
    if let Item::Fn(f) = &mut file.items[to] {
        f.attrs = taken;
    }
}

/// The annotations of the function at `i` are replaced by the one
/// annotation `#[name]`, built with `Ident::new`.
#[verifier::external_body]
fn put_marker(file: &mut File, i: usize, name: &str)
    requires
        is_function(file_items(*old(file)), i as int),
        is_plain_ident(name@),
    ensures
        file_attrs(*final(file)) == file_attrs(*old(file)),
        file_items(*final(file)) == with_function(
            file_items(*old(file)),
            i as int,
            FnView { attrs: seq![marker(name@)], ..file_items(*old(file))[i as int]->Function_0 },
        ),
{
    if let Item::Fn(f) = &mut file.items[i] {
        f.attrs = vec![syn::Attribute {
            pound_token: Default::default(),
            style: syn::AttrStyle::Outer,
            bracket_token: Default::default(),
            path: Ident::new(name, Span::call_site()).into(),
            tokens: TokenStream::new(),
        }];
    }
}

/// The calling convention of the function at `i` becomes `extern "name"`,
/// built with `LitStr::new`.
#[verifier::external_body]
fn put_abi(file: &mut File, i: usize, name: &str)
    requires
        is_function(file_items(*old(file)), i as int),
    ensures
        file_attrs(*final(file)) == file_attrs(*old(file)),
        file_items(*final(file)) == with_function(
            file_items(*old(file)),
            i as int,
            FnView { abi: Some(Some(name@)), ..file_items(*old(file))[i as int]->Function_0 },
        ),
{
    if let Item::Fn(f) = &mut file.items[i] {
        f.sig.abi = Some(syn::Abi {
            extern_token: Default::default(),
            name: Some(syn::LitStr::new(name, Span::call_site())),
        });
    }
}

/// The variant of the `syn::FnArg` at `k` of the function at `i`: whether
/// the parameter is written with a type.
#[verifier::external_body]
fn input_is_typed(file: &File, i: usize, k: usize) -> (r: bool)
    requires
        is_function(file_items(*file), i as int),
        k < file_items(*file)[i as int]->Function_0.inputs.len(),
    ensures
        r == (file_items(*file)[i as int]->Function_0.inputs[k as int] is Some),
{
    match &file.items[i] {
        Item::Fn(f) => matches!(f.sig.inputs[k], FnArg::Typed(_)),
        _ => false,
    }
}

/// `syn::parse_str::<syn::Type>`, and the type that it gives made the type
/// of the typed parameter `k` of the function at `i`. Where the text is no
/// type, nothing is changed and `false` is returned.
#[verifier::external_body]
fn put_input_type(file: &mut File, i: usize, k: usize, ty: &str) -> (ok: bool)
    requires
        is_function(file_items(*old(file)), i as int),
        k < file_items(*old(file))[i as int]->Function_0.inputs.len(),
        file_items(*old(file))[i as int]->Function_0.inputs[k as int] is Some,
    ensures
        ok == (parsed_type(ty@) is Some),
        file_attrs(*final(file)) == file_attrs(*old(file)),
        !ok ==> file_items(*final(file)) == file_items(*old(file)),
        ok ==> file_items(*final(file)) == ({
            let f = file_items(*old(file))[i as int]->Function_0;
            let inputs = f.inputs.update(k as int, Some(parsed_type(ty@).unwrap()));
            with_function(file_items(*old(file)), i as int, FnView { inputs, ..f })
        }),
{
    let Ok(ty) = syn::parse_str::<syn::Type>(ty) else { return false; };
    if let Item::Fn(f) = &mut file.items[i] {
        if let FnArg::Typed(typed) = &mut f.sig.inputs[k] {
            *typed.ty = ty;
        }
    }
    true
}

/// `syn::parse_str::<syn::Type>`, and the type that it gives made the
/// return type of the function at `i`. Where the text is no type, nothing
/// is changed and `false` is returned.
#[verifier::external_body]
fn put_output_type(file: &mut File, i: usize, ty: &str) -> (ok: bool)
    requires
        is_function(file_items(*old(file)), i as int),
    ensures
        ok == (parsed_type(ty@) is Some),
        file_attrs(*final(file)) == file_attrs(*old(file)),
        !ok ==> file_items(*final(file)) == file_items(*old(file)),
        ok ==> file_items(*final(file)) == ({
            let f = file_items(*old(file))[i as int]->Function_0;
            let output = Some(parsed_type(ty@).unwrap());
            with_function(file_items(*old(file)), i as int, FnView { output, ..f })
        }),
{
    let Ok(ty) = syn::parse_str::<syn::Type>(ty) else { return false; };
    if let Item::Fn(f) = &mut file.items[i] {
        f.sig.output = syn::ReturnType::Type(Default::default(), Box::new(ty));
    }
    true
}

/// The name of the function at `i` becomes its name without `r#`, as
/// `IdentExt::unraw` gives it, with `suffix` added, built with `Ident::new`.
#[verifier::external_body]
fn put_suffix(file: &mut File, i: usize, suffix: &str)
    requires
        is_function(file_items(*old(file)), i as int),
        is_word(suffix@),
    ensures
        file_attrs(*final(file)) == file_attrs(*old(file)),
        file_items(*final(file)) == ({
            let f = file_items(*old(file))[i as int]->Function_0;
            let name = unraw(f.name) + suffix@;
            with_function(file_items(*old(file)), i as int, FnView { name, ..f })
        }),
{
    if let Item::Fn(f) = &mut file.items[i] {
        f.sig.ident = Ident::new(&format!("{}{}", f.sig.ident.unraw(), suffix), f.sig.ident.span());
    }
}

/// A source module, as parsed.
pub struct Module {
    file: File,
}

impl View for Module {
    type V = ModuleView;

    /// The module's own annotations and its items.
    closed spec fn view(&self) -> ModuleView {
        ModuleView { attrs: file_attrs(self.file), items: file_items(self.file) }
    }
}

/// Why a text is no source module: what the parser said of it.
#[derive(Debug, Clone)]
pub struct SyntaxError {
    pub message: String,
}

impl Module {
    /// The text that the module is printed as.
    pub closed spec fn text(&self) -> Seq<char> {
        file_text(self.file)
    }

    /// Parses a source module. Fails exactly on a text that is not one.
    pub fn parse(text: &str) -> (r: Result<Module, SyntaxError>)
        ensures
            match r {
                Ok(m) => source_module(text@) == Some(m@),
                Err(_) => source_module(text@) is None,
            },
    {
        match parse_file(text) {
            Ok(file) => Ok(Module { file }),
            Err(e) => Err(SyntaxError { message: error_message(&e) }),
        }
    }

    /// Prints the module.
    pub fn print(&self) -> (r: String)
        ensures
            r@ == self.text(),
    {
        print_file(&self.file)
    }

    /// The number of items.
    pub fn len(&self) -> (n: usize)
        ensures
            n == self@.items.len(),
    {
        item_count(&self.file)
    }

    /// What the item at `i` is.
    pub fn head(&self, i: usize) -> (r: ItemHead)
        requires
            i < self@.items.len(),
        ensures
            r.is_head_of(self@.items[i as int]),
    {
        item_head(&self.file, i)
    }

    /// The annotations of the function at `i`, in their order.
    pub fn annotations(&self, i: usize) -> (r: Vec<Annotation>)
        requires
            is_function(self@.items, i as int),
        ensures
            r.deep_view() == self@.items[i as int]->Function_0.attrs,
    {
        let count = match item_head(&self.file, i) {
            ItemHead::Function { attrs, .. } => attrs,
            _ => 0,
        };
        let ghost attrs = self@.items[i as int]->Function_0.attrs;
        let mut r: Vec<Annotation> = Vec::new();
        let mut j: usize = 0;
        while j < count
            invariant
                j <= count,
                count == attrs.len(),
                is_function(self@.items, i as int),
                attrs == self@.items[i as int]->Function_0.attrs,
                r@.len() == j,
                forall|k: int| 0 <= k < j ==> (#[trigger] r@[k]).deep_view() == attrs[k],
            decreases count - j,
        {
            let text = fn_attr_text(&self.file, i, j);
            let meta = fn_attr_meta(&self.file, i, j);
            r.push(Annotation { text, meta });
            j += 1;
        }
        assert(r.deep_view() =~= attrs);
        r
    }

    /// Adds the annotation `#![name(arg)]` to the module's own, as the last.
    pub fn push_inner_attr(&mut self, name: &str, arg: &str)
        requires
            is_plain_ident(name@),
            is_plain_ident(arg@),
        ensures
            final(self)@ == (ModuleView {
                attrs: old(self)@.attrs.push(inner_attr_text(name@, arg@)),
                ..old(self)@
            }),
    {
        push_inner_attr(&mut self.file, name, arg)
    }

    /// Adds the items of `other` after the module's own.
    pub fn append_items(&mut self, other: Module)
        ensures
            final(self)@ == (ModuleView { items: old(self)@.items + other@.items, ..old(self)@ }),
    {
        extend_items(&mut self.file, other.file)
    }

    /// Removes the item at `i`.
    pub fn remove(&mut self, i: usize)
        requires
            i < old(self)@.items.len(),
        ensures
            final(self)@ == (ModuleView { items: old(self)@.items.remove(i as int), ..old(self)@ }),
    {
        remove_item(&mut self.file, i)
    }

    /// Takes the annotations from the function at `from` and gives them to
    /// the function at `to`, in place of its own.
    pub fn move_attrs(&mut self, from: usize, to: usize)
        requires
            from != to,
            is_function(old(self)@.items, from as int),
            is_function(old(self)@.items, to as int),
        ensures
            final(self)@.attrs == old(self)@.attrs,
            final(self)@.items == ({
                let items = old(self)@.items;
                let source = items[from as int]->Function_0;
                let target = items[to as int]->Function_0;
                with_function(
                    with_function(items, from as int, FnView { attrs: Seq::empty(), ..source }),
                    to as int,
                    FnView { attrs: source.attrs, ..target },
                )
            }),
    {
        take_attrs(&mut self.file, from, to)
    }

    /// Replaces the annotations of the function at `i` by the one
    /// annotation `#[name]`.
    pub fn set_marker(&mut self, i: usize, name: &str)
        requires
            is_function(old(self)@.items, i as int),
            is_plain_ident(name@),
        ensures
            final(self)@.attrs == old(self)@.attrs,
            final(self)@.items == with_function(
                old(self)@.items,
                i as int,
                FnView { attrs: seq![marker(name@)], ..old(self)@.items[i as int]->Function_0 },
            ),
    {
        put_marker(&mut self.file, i, name)
    }

    /// Gives the function at `i` the calling convention `extern "name"`.
    pub fn set_abi(&mut self, i: usize, name: &str)
        requires
            is_function(old(self)@.items, i as int),
        ensures
            final(self)@.attrs == old(self)@.attrs,
            final(self)@.items == with_function(
                old(self)@.items,
                i as int,
                FnView { abi: Some(Some(name@)), ..old(self)@.items[i as int]->Function_0 },
            ),
    {
        put_abi(&mut self.file, i, name)
    }

    /// Makes `ty` the type of each typed parameter of the function at `i`
    /// and its return type. Where `ty` is no type, nothing is changed and
    /// `false` is returned.
    pub fn retype(&mut self, i: usize, ty: &str) -> (ok: bool)
        requires
            is_function(old(self)@.items, i as int),
        ensures
            ok == (parsed_type(ty@) is Some),
            final(self)@.attrs == old(self)@.attrs,
            !ok ==> final(self)@.items == old(self)@.items,
            ok ==> final(self)@.items == ({
                let f = old(self)@.items[i as int]->Function_0;
                let t = parsed_type(ty@).unwrap();
                with_function(
                    old(self)@.items,
                    i as int,
                    FnView { inputs: retyped(f.inputs, t), output: Some(t), ..f },
                )
            }),
    {
        let ghost items = self@.items;
        let ghost f = items[i as int]->Function_0;
        let ghost attrs = self@.attrs;
        let ghost t = parsed_type(ty@).unwrap();
        let count = match item_head(&self.file, i) {
            ItemHead::Function { inputs, .. } => inputs,
            _ => 0,
        };
        let mut k: usize = 0;
        proof {
            assert(retyped_before(f.inputs, t, 0) =~= f.inputs);
            assert(items =~= with_function(items, i as int, f));
        }
        while k < count
            invariant
                k <= count,
                count == f.inputs.len(),
                0 <= i < items.len(),
                items[i as int] == ItemView::Function(f),
                t == parsed_type(ty@).unwrap(),
                attrs == old(self)@.attrs,
                items == old(self)@.items,
                self@.attrs == attrs,
                parsed_type(ty@) is None ==> self@.items == items,
                parsed_type(ty@) is Some ==> self@.items == with_function(
                    items,
                    i as int,
                    FnView { inputs: retyped_before(f.inputs, t, k as int), ..f },
                ),
            decreases count - k,
        {
            let ghost before = retyped_before(f.inputs, t, k as int);
            assert(before[k as int] == f.inputs[k as int]);
            if input_is_typed(&self.file, i, k) {
                if !put_input_type(&mut self.file, i, k, ty) {
                    return false;
                }
                assert(before.update(k as int, Some(t)) =~= retyped_before(f.inputs, t, k + 1));
            } else {
                assert(before =~= retyped_before(f.inputs, t, k + 1));
            }
            k += 1;
        }
        let ok = put_output_type(&mut self.file, i, ty);
        proof {
            if ok {
                assert(self@.items =~= with_function(
                    items,
                    i as int,
                    FnView { inputs: retyped(f.inputs, t), output: Some(t), ..f },
                ));
            }
        }
        ok
    }

    /// Adds `suffix` to the name of the function at `i`, after taking a
    /// leading `r#` from it.
    pub fn rename(&mut self, i: usize, suffix: &str)
        requires
            is_function(old(self)@.items, i as int),
            is_word(suffix@),
        ensures
            final(self)@.attrs == old(self)@.attrs,
            final(self)@.items == ({
                let f = old(self)@.items[i as int]->Function_0;
                with_function(
                    old(self)@.items,
                    i as int,
                    FnView { name: unraw(f.name) + suffix@, ..f },
                )
            }),
    {
        put_suffix(&mut self.file, i, suffix)
    }
}

} // verus!
