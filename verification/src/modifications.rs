//! What is changed in the copy of a macro package before it is compiled
//! to WebAssembly: its manifest, its root module, and every path into the
//! compiler's macro interface.

use crate::document::{toml_entries, Manifest, ParseError};
use crate::rewrite::{cargo_toml, wasm_manifest};
use crate::source::{entry_points, kept, librs, rewritable, rewritten, ProcMacroFn, SourceError};
use crate::syntax::{is_function, source_module, Annotation, ItemHead, Module};
use crate::text::{join2, occurs, replace_all, replaced};
use vstd::prelude::*;

verus! {

/// A text with every path into `proc_macro`, written with or without a
/// space before the colons, made a path into `proc_macro2`.
pub open spec fn spec_dump_replace(contents: Seq<char>) -> Seq<char> {
    replaced(
        replaced(contents, "proc_macro ::"@, "proc_macro2 ::"@),
        "proc_macro::"@,
        "proc_macro2 ::"@,
    )
}

/// There is a path into `proc_macro` in the text.
pub open spec fn has_proc_macro_path(contents: Seq<char>) -> bool {
    occurs(contents, "proc_macro ::"@) || occurs(
        replaced(contents, "proc_macro ::"@, "proc_macro2 ::"@),
        "proc_macro::"@,
    )
}

/// Makes every path into `proc_macro` a path into `proc_macro2`, whose
/// types the compiled module is built on. Returns the new text, or `None`
/// where the text has no such path and the file can stay as it is.
pub fn dump_replace(contents: &str) -> (r: Option<String>)
    ensures
        match r {
            Some(text) => has_proc_macro_path(contents@) && text@ == spec_dump_replace(contents@),
            None => !has_proc_macro_path(contents@),
        },
{
    proof {
        reveal_strlit("proc_macro ::");
        reveal_strlit("proc_macro::");
        assert("proc_macro ::"@.len() > 0 && "proc_macro::"@.len() > 0);
    }
    let (first, spaced) = replace_all(contents, "proc_macro ::", "proc_macro2 ::");
    let (second, plain) = replace_all(first.as_str(), "proc_macro::", "proc_macro2 ::");
    if spaced || plain {
        Some(second)
    } else {
        None
    }
}

/// The rewritten files of a macro package, and the entry points found.
#[derive(Debug, Clone)]
pub struct Modifications {
    /// The new text of the manifest.
    pub manifest: String,
    /// The new text of the root module.
    pub lib: String,
    /// The entry points, in their order.
    pub fns: Vec<ProcMacroFn>,
}

/// Why a package was not rewritten.
#[derive(Debug, Clone)]
pub enum ModificationError {
    /// The manifest is not TOML.
    Manifest(ParseError),
    /// The root module was not rewritten.
    Source(SourceError),
}

/// Rewrites the manifest and the root module of a macro package, given
/// the texts of both. The manifest is looked at first: where it is not
/// TOML, the root module is not read.
pub fn make_modifications(manifest: &str, lib: &str) -> (r: Result<Modifications, ModificationError>)
    ensures
        match r {
            Ok(done) => {
                &&& toml_entries(manifest@) is Some
                &&& exists|m: Manifest|
                    m@ == wasm_manifest(toml_entries(manifest@).unwrap()) && done.manifest@
                        == #[trigger] m.text()
                &&& source_module(lib@) is Some
                &&& rewritable(source_module(lib@).unwrap())
                &&& done.fns.deep_view() == entry_points(kept(source_module(lib@).unwrap().items))
                &&& exists|out: Module|
                    out@ == rewritten(source_module(lib@).unwrap()) && done.lib@
                        == #[trigger] out.text()
            },
            Err(ModificationError::Manifest(_)) => toml_entries(manifest@) is None,
            Err(ModificationError::Source(SourceError::Parse(_))) => toml_entries(manifest@) is Some
                && source_module(lib@) is None,
            Err(ModificationError::Source(SourceError::Rewrite)) => toml_entries(manifest@) is Some
                && source_module(lib@) is Some && !rewritable(source_module(lib@).unwrap()),
        },
{
    let new_manifest = match cargo_toml(manifest) {
        Ok(text) => text,
        Err(e) => {
            return Err(ModificationError::Manifest(e));
        },
    };
    match librs(lib) {
        Ok((fns, new_lib)) => Ok(Modifications { manifest: new_manifest, lib: new_lib, fns }),
        Err(e) => Err(ModificationError::Source(e)),
    }
}

/// The function that the annotations of `text` are put on, to parse them.
pub open spec fn annotated(text: Seq<char>) -> Seq<char> {
    text + " fn annotated() {}"@
}

/// Parses a text of outer annotations, such as `#[no_mangle]`: they are
/// read as the annotations of a function. Fails where the text, put
/// before a function, is not one annotated function.
pub fn parse_attributes(text: &str) -> (r: Option<Vec<Annotation>>)
    ensures
        match r {
            Some(attrs) => source_module(annotated(text@)) is Some && ({
                let items = source_module(annotated(text@)).unwrap().items;
                items.len() == 1 && is_function(items, 0) && attrs.deep_view()
                    == items[0]->Function_0.attrs
            }),
            None => source_module(annotated(text@)) is None || ({
                let items = source_module(annotated(text@)).unwrap().items;
                !(items.len() == 1 && is_function(items, 0))
            }),
        },
{
    let source = join2(text, " fn annotated() {}");
    match Module::parse(source.as_str()) {
        Err(_) => None,
        Ok(module) => {
            if module.len() != 1 {
                return None;
            }
            match module.head(0) {
                ItemHead::Function { .. } => Some(module.annotations(0)),
                _ => None,
            }
        },
    }
}

} // verus!
