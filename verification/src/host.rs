//! The package that ships the compiled module: the names of its files and
//! the source of its root module.

use crate::document::Manifest;
use crate::rewrite::{modify_cargo_toml_for_watt, watt_manifest};
use crate::source::{shim, shim_source, ProcMacroFn, ProcMacroFnView, ProcMacroKind};
use crate::text::join2;
use vstd::prelude::*;

verus! {

/// The directory of the package that is made of the package `name`.
pub open spec fn spec_crate_dir(name: Seq<char>) -> Seq<char> {
    name + "-watt"@
}

/// The directory of the package that is made of the package `name`.
pub fn crate_dir(name: &str) -> (r: String)
    ensures
        r@ == spec_crate_dir(name@),
{
    join2(name, "-watt")
}

/// How the compiled module's file is named inside the package's `src`:
/// after the package, with `.deflate` added where it is embedded deflated.
pub open spec fn spec_wasm_file_name(name: Seq<char>, compress: bool) -> Seq<char> {
    if compress {
        name + ".wasm"@ + ".deflate"@
    } else {
        name + ".wasm"@
    }
}

/// How the compiled module's file is named inside the package's `src`.
pub fn wasm_file_name(name: &str, compress: bool) -> (r: String)
    ensures
        r@ == spec_wasm_file_name(name@, compress),
{
    let mut r = join2(name, ".wasm");
    if compress {
        r.append(".deflate");
    }
    r
}

/// What is to be done about the directory that the new package goes to.
#[derive(Debug, Clone, Copy, PartialEq, Eq, Structural)]
pub enum OutputAction {
    /// Nothing is in the way.
    Create,
    /// Remove what is there, all of it, and then create.
    Replace,
}

/// The directory that the new package goes to is taken.
#[derive(Debug, Clone, Copy, PartialEq, Eq, Structural)]
pub struct AlreadyExists;

impl AlreadyExists {
    pub open spec fn spec_message(dir: Seq<char>) -> Seq<char> {
        "'"@ + dir + "' already exists. Use --overwrite to overwrite."@
    }

    /// What to tell the user, of the directory `dir`.
    pub fn message(dir: &str) -> (r: String)
        ensures
            r@ == Self::spec_message(dir@),
    {
        let mut r = "'".to_owned();
        r.append(dir);
        r.append("' already exists. Use --overwrite to overwrite.");
        r
    }
}

pub open spec fn spec_output_action(exists: bool, overwrite: bool) -> Result<
    OutputAction,
    AlreadyExists,
> {
    if !exists {
        Ok(OutputAction::Create)
    } else if overwrite {
        Ok(OutputAction::Replace)
    } else {
        Err(AlreadyExists)
    }
}

/// Decides, before anything is built, what is done about the directory
/// that the new package goes to: an existing one is an error unless it
/// may be overwritten.
pub fn output_action(exists: bool, overwrite: bool) -> (r: Result<OutputAction, AlreadyExists>)
    ensures
        r == spec_output_action(exists, overwrite),
{
    if !exists {
        Ok(OutputAction::Create)
    } else if overwrite {
        Ok(OutputAction::Replace)
    } else {
        Err(AlreadyExists)
    }
}

/// Some entry point among `fns` is declared through `proc_macro_hack`.
pub open spec fn uses_hack(fns: Seq<ProcMacroFnView>) -> bool {
    exists|i: int| 0 <= i < fns.len() && (#[trigger] fns[i]).kind == ProcMacroKind::ProcMacroHack
}

/// Whether an entry point is declared through `proc_macro_hack`.
pub fn uses_proc_macro_hack(fns: &Vec<ProcMacroFn>) -> (r: bool)
    ensures
        r == uses_hack(fns.deep_view()),
{
    let mut i: usize = 0;
    while i < fns.len()
        invariant
            i <= fns.len(),
            forall|j: int|
                0 <= j < i ==> (#[trigger] fns.deep_view()[j]).kind != ProcMacroKind::ProcMacroHack,
        decreases fns.len() - i,
    {
        assert(fns.deep_view()[i as int].kind == fns@[i as int].kind);
        match fns[i].kind {
            ProcMacroKind::ProcMacroHack => {
                return true;
            },
            _ => {},
        }
        i += 1;
    }
    false
}

/// The two statics of the package's root module: the compiled module's
/// bytes, taken from the file `file`, and the dispatch handle `MACRO` made
/// of them. Where the module is embedded deflated both are made on first
/// use, the bytes by inflating the file.
pub open spec fn spec_statics(file: Seq<char>, compress: bool) -> Seq<char> {
    if compress {
        "extern crate once_cell;\nuse once_cell::sync::Lazy;\nstatic WASM: Lazy<Vec<u8>> = Lazy::new(|| miniz_oxide::inflate::decompress_to_vec(include_bytes!(\""@
            + file
            + "\")).expect(\"failed to decompress wasm\"));\nstatic MACRO: Lazy<watt::WasmMacro> = Lazy::new(|| watt::WasmMacro::new(&WASM));\n"@
    } else {
        "static WASM: &[u8] = include_bytes!(\""@ + file
            + "\");\nstatic MACRO: watt::WasmMacro = watt::WasmMacro::new(WASM);\n"@
    }
}

/// The two statics of the package's root module.
pub fn statics(file: &str, compress: bool) -> (r: String)
    ensures
        r@ == spec_statics(file@, compress),
{
    if compress {
        let mut r =
            "extern crate once_cell;\nuse once_cell::sync::Lazy;\nstatic WASM: Lazy<Vec<u8>> = Lazy::new(|| miniz_oxide::inflate::decompress_to_vec(include_bytes!(\"".to_owned();
        r.append(file);
        r.append(
            "\")).expect(\"failed to decompress wasm\"));\nstatic MACRO: Lazy<watt::WasmMacro> = Lazy::new(|| watt::WasmMacro::new(&WASM));\n",
        );
        r
    } else {
        let mut r = "static WASM: &[u8] = include_bytes!(\"".to_owned();
        r.append(file);
        r.append("\");\nstatic MACRO: watt::WasmMacro = watt::WasmMacro::new(WASM);\n");
        r
    }
}

/// The lines `attrs`, each ended by a line break.
pub open spec fn lines(attrs: Seq<Seq<char>>) -> Seq<char>
    decreases attrs.len(),
{
    if attrs.len() == 0 {
        Seq::empty()
    } else {
        lines(attrs.drop_last()) + attrs.last() + "\n"@
    }
}

/// The function that stands in for an entry point, under the annotations
/// that the entry point carried.
pub open spec fn spec_entry(f: ProcMacroFnView) -> Seq<char> {
    lines(f.attrs) + shim_source(f.name, f.kind) + "\n"@
}

/// The functions that stand in for the entry points, in their order.
pub open spec fn spec_entries(fns: Seq<ProcMacroFnView>) -> Seq<char>
    decreases fns.len(),
{
    if fns.len() == 0 {
        Seq::empty()
    } else {
        spec_entries(fns.drop_last()) + spec_entry(fns.last())
    }
}

/// The root module of the package that ships the compiled module of the
/// package `name`: the statics, the import of `proc_macro_hack` where an
/// entry point is declared through it, and for each entry point the
/// function that stands in for it.
pub open spec fn spec_watt_librs(name: Seq<char>, fns: Seq<ProcMacroFnView>, compress: bool) -> Seq<
    char,
> {
    spec_statics(spec_wasm_file_name(name, compress), compress) + (if uses_hack(fns) {
        "use proc_macro_hack::proc_macro_hack;\n"@
    } else {
        Seq::empty()
    }) + spec_entries(fns)
}

/// Adds to `out` the function that stands in for `f`, under the
/// annotations of `f`.
fn push_entry(out: &mut String, f: &ProcMacroFn)
    ensures
        final(out)@ == old(out)@ + spec_entry(f.deep_view()),
{
    let ghost start = out@;
    let ghost attrs = f.attrs.deep_view();
    let mut j: usize = 0;
    assert(attrs.take(0) =~= Seq::empty());
    assert(start + lines(attrs.take(0)) =~= start);
    while j < f.attrs.len()
        invariant
            j <= f.attrs.len(),
            attrs == f.attrs.deep_view(),
            out@ == start + lines(attrs.take(j as int)),
        decreases f.attrs.len() - j,
    {
        let ghost before = out@;
        out.append(f.attrs[j].as_str());
        out.append("\n");
        proof {
            let next = attrs.take(j + 1);
            assert(next.drop_last() =~= attrs.take(j as int));
            assert(next.last() == f.attrs@[j as int]@);
            assert(out@ =~= start + lines(next));
        }
        j += 1;
    }
    assert(attrs.take(f.attrs.len() as int) =~= attrs);
    let text = shim(f.name.as_str(), f.kind);
    out.append(text.as_str());
    out.append("\n");
    assert(out@ =~= start + spec_entry(f.deep_view()));
}

/// The source of the root module of the package that ships the compiled
/// module of the package `name`.
pub fn watt_librs(name: &str, fns: &Vec<ProcMacroFn>, compress: bool) -> (r: String)
    ensures
        r@ == spec_watt_librs(name@, fns.deep_view(), compress),
{
    let file = wasm_file_name(name, compress);
    let mut out = statics(file.as_str(), compress);
    if uses_proc_macro_hack(fns) {
        out.append("use proc_macro_hack::proc_macro_hack;\n");
    }
    let ghost start = out@;
    let ghost all = fns.deep_view();
    let mut i: usize = 0;
    assert(all.take(0) =~= Seq::empty());
    assert(start + spec_entries(all.take(0)) =~= start);
    while i < fns.len()
        invariant
            i <= fns.len(),
            all == fns.deep_view(),
            out@ == start + spec_entries(all.take(i as int)),
        decreases fns.len() - i,
    {
        push_entry(&mut out, &fns[i]);
        proof {
            let next = all.take(i + 1);
            assert(next.drop_last() =~= all.take(i as int));
            assert(next.last() == fns@[i as int].deep_view());
            assert(out@ =~= start + spec_entries(next));
        }
        i += 1;
    }
    assert(all.take(fns.len() as int) =~= all);
    out
}

/// The files of the package that ships the compiled module, but for the
/// module itself.
#[derive(Debug, Clone)]
pub struct WattCrate {
    /// The text of the manifest.
    pub manifest: String,
    /// The text of the root module, `src/lib.rs`.
    pub lib: String,
    /// The name, inside `src`, of the file that holds the compiled module.
    pub wasm_file: String,
    /// Whether the macro package had features, which the new package
    /// declares and ignores: the user should be told.
    pub had_features: bool,
}

/// Makes, of the manifest of the macro package `name` and the entry
/// points found in it, the files of the package that ships its compiled
/// module. The manifest is rewritten on the way.
pub fn create_watt_crate(
    manifest: &mut Manifest,
    name: &str,
    fns: &Vec<ProcMacroFn>,
    compress: bool,
) -> (r: WattCrate)
    ensures
        final(manifest)@ == watt_manifest(old(manifest)@, compress),
        r.manifest@ == final(manifest).text(),
        r.lib@ == spec_watt_librs(name@, fns.deep_view(), compress),
        r.wasm_file@ == spec_wasm_file_name(name@, compress),
        r.had_features == old(manifest)@.dom().contains(seq!["features"@]),
{
    let had_features = modify_cargo_toml_for_watt(manifest, compress);
    WattCrate {
        manifest: manifest.write(),
        lib: watt_librs(name, fns, compress),
        wasm_file: wasm_file_name(name, compress),
        had_features,
    }
}

} // verus!
