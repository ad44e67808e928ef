use cargo_watt::host::{
    crate_dir, create_watt_crate, output_action, statics, uses_proc_macro_hack, wasm_file_name,
    watt_librs, AlreadyExists, OutputAction,
};
use cargo_watt::modifications::{dump_replace, make_modifications, parse_attributes, ModificationError};
use cargo_watt::source::{
    librs, macro_kind, macro_meta, remove_extern_procmacro, shim, ProcMacroFn, ProcMacroKind, SourceError,
};
use cargo_watt::syntax::{Annotation, ItemHead, MetaForm, MetaHead, MetaOutline, Module};
use cargo_watt::text::{chars_of, join2, join3, replace_all, str_eq};

fn head(form: MetaForm, ident: &str) -> MetaHead {
    MetaHead { form, ident: Some(ident.to_string()) }
}

fn outline(form: MetaForm, ident: &str) -> MetaOutline {
    MetaOutline { head: head(form, ident), nested: Vec::new() }
}

fn cfg_attr(second: Option<MetaHead>) -> MetaOutline {
    MetaOutline {
        head: head(MetaForm::List, "cfg_attr"),
        nested: vec![Some(head(MetaForm::Path, "test")), second],
    }
}

fn annotation(meta: Option<MetaOutline>) -> Annotation {
    Annotation { text: String::new(), meta }
}

/// The names of the functions of a source text, in their order.
fn functions(text: &str) -> Vec<String> {
    let module = Module::parse(text).unwrap();
    (0..module.len())
        .filter_map(|i| match module.head(i) {
            ItemHead::Function { name, .. } => Some(name),
            _ => None,
        })
        .collect()
}

/// The annotations of the function `name` of a source text.
fn annotations_of(text: &str, name: &str) -> Vec<Annotation> {
    let module = Module::parse(text).unwrap();
    for i in 0..module.len() {
        if let ItemHead::Function { name: found, .. } = module.head(i) {
            if found == name {
                return module.annotations(i);
            }
        }
    }
    panic!("no function {}", name);
}

const TWO_MACROS: &str = r#"
extern crate proc_macro;
use proc_macro::TokenStream;

#[proc_macro]
pub fn my_macro(_input: TokenStream) -> proc_macro::TokenStream {
    _input
}

/// Doubles the item.
#[proc_macro_attribute]
pub fn attribute_macro_twice(_attr: TokenStream, input: TokenStream) -> TokenStream {
    input
}

fn helper() -> u32 { 42 }
"#;

#[test]
fn macro_meta_knows_the_four_markers() {
    assert_eq!(macro_meta(&outline(MetaForm::Path, "proc_macro")), Some(ProcMacroKind::Macro));
    assert_eq!(macro_meta(&outline(MetaForm::Path, "proc_macro_attribute")), Some(ProcMacroKind::Attribute));
    assert_eq!(macro_meta(&outline(MetaForm::Path, "proc_macro_hack")), Some(ProcMacroKind::ProcMacroHack));
    assert_eq!(macro_meta(&outline(MetaForm::List, "proc_macro_derive")), Some(ProcMacroKind::Derive));
}

#[test]
fn macro_meta_wants_the_marker_in_its_own_form() {
    assert_eq!(macro_meta(&outline(MetaForm::Path, "proc_macro_derive")), None);
    assert_eq!(macro_meta(&outline(MetaForm::List, "proc_macro")), None);
    assert_eq!(macro_meta(&outline(MetaForm::List, "proc_macro_attribute")), None);
    assert_eq!(macro_meta(&outline(MetaForm::NameValue, "proc_macro")), None);
    assert_eq!(macro_meta(&outline(MetaForm::Path, "inline")), None);
    assert_eq!(macro_meta(&outline(MetaForm::Path, "no_mangle")), None);
    assert_eq!(
        macro_meta(&MetaOutline { head: MetaHead { form: MetaForm::Path, ident: None }, nested: Vec::new() }),
        None
    );
}

#[test]
fn macro_meta_looks_at_the_second_argument_of_cfg_attr() {
    assert_eq!(macro_meta(&cfg_attr(Some(head(MetaForm::Path, "proc_macro")))), Some(ProcMacroKind::Macro));
    assert_eq!(
        macro_meta(&cfg_attr(Some(head(MetaForm::List, "proc_macro_derive")))),
        Some(ProcMacroKind::Derive)
    );
    assert_eq!(macro_meta(&cfg_attr(Some(head(MetaForm::Path, "inline")))), None);
    assert_eq!(macro_meta(&cfg_attr(None)), None);
    // the marker must be the second argument, not the first
    let first = MetaOutline {
        head: head(MetaForm::List, "cfg_attr"),
        nested: vec![Some(head(MetaForm::Path, "proc_macro"))],
    };
    assert_eq!(macro_meta(&first), None);
    // a wrapper inside the wrapper hides the marker
    assert_eq!(macro_meta(&cfg_attr(Some(head(MetaForm::List, "cfg_attr")))), None);
}

#[test]
fn macro_kind_takes_the_first_marker() {
    assert_eq!(macro_kind(&Vec::new()), None);
    assert_eq!(macro_kind(&vec![annotation(None), annotation(Some(outline(MetaForm::Path, "inline")))]), None);
    assert_eq!(
        macro_kind(&vec![
            annotation(None),
            annotation(Some(outline(MetaForm::Path, "proc_macro_attribute"))),
            annotation(Some(outline(MetaForm::Path, "proc_macro"))),
        ]),
        Some(ProcMacroKind::Attribute)
    );
}

#[test]
fn annotations_are_read_from_source() {
    let text = "#[proc_macro_derive(DeriveMacro, attributes(test))] #[cfg_attr(feature = \"x\", proc_macro)] #[doc = \"d\"] #[weird ! bang] fn f() {}";
    let attrs = annotations_of(text, "f");
    assert_eq!(attrs.len(), 4);
    let derive = attrs[0].meta.as_ref().unwrap();
    assert_eq!(derive.head.form, MetaForm::List);
    assert_eq!(derive.head.ident.as_deref(), Some("proc_macro_derive"));
    assert_eq!(derive.nested.len(), 2);
    assert_eq!(derive.nested[0].as_ref().unwrap().ident.as_deref(), Some("DeriveMacro"));
    assert_eq!(derive.nested[1].as_ref().unwrap().form, MetaForm::List);
    let wrapped = attrs[1].meta.as_ref().unwrap();
    assert_eq!(wrapped.head.ident.as_deref(), Some("cfg_attr"));
    assert_eq!(wrapped.nested[0].as_ref().unwrap().form, MetaForm::NameValue);
    assert_eq!(wrapped.nested[1].as_ref().unwrap().ident.as_deref(), Some("proc_macro"));
    assert_eq!(attrs[2].meta.as_ref().unwrap().head.form, MetaForm::NameValue);
    assert!(attrs[3].meta.is_none());
    assert_eq!(macro_kind(&attrs), Some(ProcMacroKind::Derive));
    assert!(attrs[0].text.contains("proc_macro_derive"));
    assert!(attrs[3].text.contains("weird"));
}

#[test]
fn a_path_with_segments_has_no_name() {
    let attrs = annotations_of("#[proc_macro::proc_macro] #[cfg_attr(test, \"lit\")] fn f() {}", "f");
    assert_eq!(attrs[0].meta.as_ref().unwrap().head.ident, None);
    assert_eq!(macro_kind(&attrs), None);
    assert!(attrs[1].meta.as_ref().unwrap().nested[1].is_none());
}

#[test]
fn module_parse_rejects_what_is_not_source() {
    assert!(Module::parse("fn f( {").is_err());
    assert!(!Module::parse("fn f( {").err().unwrap().message.is_empty());
    assert!(matches!(librs("fn f( {"), Err(SourceError::Parse(_))));
}

#[test]
fn module_heads_tell_items_apart() {
    let m = Module::parse("extern crate proc_macro; struct S; #[inline] #[cold] fn f() {}").unwrap();
    assert_eq!(m.len(), 3);
    assert!(matches!(m.head(0), ItemHead::ExternCrate { name } if name == "proc_macro"));
    assert!(matches!(m.head(1), ItemHead::Other));
    assert!(matches!(m.head(2), ItemHead::Function { name, attrs: 2, inputs: 0 } if name == "f"));
    let m = Module::parse("fn g(self, a: u8, b: u8) {}").unwrap();
    assert!(matches!(m.head(0), ItemHead::Function { inputs: 3, .. }));
}

#[test]
fn module_edits_show_in_the_print() {
    let mut m = Module::parse("#[inline] fn f(self, a: u8) {} fn g() {} struct S;").unwrap();
    m.move_attrs(0, 1);
    assert_eq!(m.annotations(0).len(), 0);
    assert_eq!(m.annotations(1).len(), 1);
    m.set_marker(0, "no_mangle");
    let marker = m.annotations(0);
    assert_eq!(marker.len(), 1);
    assert_eq!(marker[0].meta.as_ref().unwrap().head.form, MetaForm::Path);
    assert_eq!(marker[0].meta.as_ref().unwrap().head.ident.as_deref(), Some("no_mangle"));
    assert!(marker[0].meta.as_ref().unwrap().nested.is_empty());
    assert_eq!(marker[0].text, "# [no_mangle]");
    m.set_abi(0, "C");
    assert!(m.retype(0, "proc_macro2::TokenStream"));
    assert!(!m.retype(0, "not a type ::"));
    m.rename(0, "_inner");
    m.remove(2);
    let other = Module::parse("fn h() {}").unwrap();
    m.push_inner_attr("allow", "warnings");
    m.append_items(other);
    assert_eq!(m.len(), 3);
    let text = m.print();
    assert_eq!(functions(&text), vec!["f_inner".to_string(), "g".to_string(), "h".to_string()]);
    let out = Module::parse(&text).unwrap();
    assert_eq!(
        out.print(),
        Module::parse("#![allow(warnings)] #[no_mangle] extern \"C\" fn f_inner(self, a: proc_macro2::TokenStream) -> proc_macro2::TokenStream {} #[inline] fn g() {} fn h() {}").unwrap().print()
    );
}

#[test]
fn remove_extern_procmacro_takes_only_that_declaration() {
    let mut m = Module::parse("extern crate proc_macro; extern crate quote; fn proc_macro() {} extern crate proc_macro;").unwrap();
    remove_extern_procmacro(&mut m);
    assert_eq!(m.len(), 2);
    assert!(matches!(m.head(0), ItemHead::ExternCrate { name } if name == "quote"));
    assert!(matches!(m.head(1), ItemHead::Function { name, .. } if name == "proc_macro"));
}

#[test]
fn shim_hands_on_to_the_dispatch_handle() {
    assert_eq!(
        shim("my_macro", ProcMacroKind::Macro),
        "pub fn my_macro(input: proc_macro::TokenStream) -> proc_macro::TokenStream { MACRO.proc_macro(\"my_macro\", input) }"
    );
    assert_eq!(
        shim("h", ProcMacroKind::ProcMacroHack),
        "pub fn h(input: proc_macro::TokenStream) -> proc_macro::TokenStream { MACRO.proc_macro(\"h\", input) }"
    );
    assert_eq!(
        shim("d", ProcMacroKind::Derive),
        "pub fn d(input: proc_macro::TokenStream) -> proc_macro::TokenStream { MACRO.proc_macro_derive(\"d\", input) }"
    );
    assert_eq!(
        shim("a", ProcMacroKind::Attribute),
        "pub fn a(args: proc_macro::TokenStream, input: proc_macro::TokenStream) -> proc_macro::TokenStream { MACRO.proc_macro_attribute(\"a\", args, input) }"
    );
    assert_eq!(ProcMacroKind::Derive.method(), "proc_macro_derive");
}

#[test]
fn librs_leaves_a_module_without_entry_points() {
    let src = "extern crate proc_macro; use std::fmt; #[inline] pub fn plain(x: u8) -> u8 { x } struct S;";
    let (fns, text) = librs(src).unwrap();
    assert!(fns.is_empty());
    let expected = Module::parse("#![allow(warnings)] use std::fmt; #[inline] pub fn plain(x: u8) -> u8 { x } struct S;").unwrap();
    assert_eq!(text, expected.print());
}

#[test]
fn librs_rewrites_one_bare_macro() {
    let src = "use proc_macro::TokenStream;\n#[proc_macro]\npub fn f(input: TokenStream) -> TokenStream { input }\n";
    let (fns, text) = librs(src).unwrap();
    assert_eq!(fns.len(), 1);
    assert_eq!(fns[0].name, "f");
    assert_eq!(fns[0].kind, ProcMacroKind::Macro);
    assert_eq!(fns[0].attrs.len(), 1);
    let expected = Module::parse(
        "#![allow(warnings)] use proc_macro::TokenStream; #[no_mangle] pub extern \"C\" fn f_inner(input: proc_macro2::TokenStream) -> proc_macro2::TokenStream { input } #[proc_macro] pub fn f(input: proc_macro::TokenStream) -> proc_macro::TokenStream { MACRO.proc_macro(\"f\", input) }",
    )
    .unwrap();
    assert_eq!(text, expected.print());
}

#[test]
fn librs_finds_every_kind() {
    let src = r#"
#[proc_macro] pub fn a(i: TokenStream) -> TokenStream { i }
#[proc_macro_derive(D, attributes(test))] pub fn b(i: TokenStream) -> TokenStream { i }
#[proc_macro_attribute] pub fn c(x: TokenStream, i: TokenStream) -> TokenStream { i }
#[proc_macro_hack] pub fn d(i: TokenStream) -> TokenStream { i }
#[cfg_attr(not(test), proc_macro)] pub fn e(i: TokenStream) -> TokenStream { i }
#[cfg_attr(a, cfg_attr(b, proc_macro))] pub fn hidden(i: TokenStream) -> TokenStream { i }
"#;
    let (fns, text) = librs(src).unwrap();
    let found: Vec<(&str, ProcMacroKind)> = fns.iter().map(|f| (f.name.as_str(), f.kind)).collect();
    assert_eq!(
        found,
        vec![
            ("a", ProcMacroKind::Macro),
            ("b", ProcMacroKind::Derive),
            ("c", ProcMacroKind::Attribute),
            ("d", ProcMacroKind::ProcMacroHack),
            ("e", ProcMacroKind::Macro),
        ]
    );
    let names: Vec<String> = ["a_inner", "b_inner", "c_inner", "d_inner", "e_inner", "hidden", "a", "b", "c", "d", "e"]
        .iter()
        .map(|s| s.to_string())
        .collect();
    assert_eq!(functions(&text), names);
    assert_eq!(macro_kind(&annotations_of(&text, "b")), Some(ProcMacroKind::Derive));
    assert_eq!(macro_kind(&annotations_of(&text, "b_inner")), None);
    assert_eq!(macro_kind(&annotations_of(&text, "hidden")), None);
}

#[test]
fn librs_keeps_the_annotations_for_the_shim() {
    let (fns, text) = librs(TWO_MACROS).unwrap();
    assert_eq!(fns.len(), 2);
    assert_eq!(fns[1].name, "attribute_macro_twice");
    assert_eq!(fns[1].attrs.len(), 2);
    assert!(fns[1].attrs[0].contains("Doubles the item."));
    let shim_attrs = annotations_of(&text, "attribute_macro_twice");
    assert_eq!(shim_attrs.len(), 2);
    assert_eq!(shim_attrs[0].text, fns[1].attrs[0]);
    assert_eq!(shim_attrs[1].text, fns[1].attrs[1]);
    let inner = annotations_of(&text, "attribute_macro_twice_inner");
    assert_eq!(inner.len(), 1);
    assert_eq!(inner[0].meta.as_ref().unwrap().head.ident.as_deref(), Some("no_mangle"));
}

#[test]
fn a_second_rewrite_finds_the_shims() {
    let (first, text) = librs(TWO_MACROS).unwrap();
    let (second, again) = librs(&text).unwrap();
    let names = |fns: &Vec<ProcMacroFn>| fns.iter().map(|f| (f.name.clone(), f.kind)).collect::<Vec<_>>();
    assert_eq!(names(&first), names(&second));
    assert!(functions(&again).contains(&"my_macro_inner_inner".to_string()) == false);
    // a module without entry points has none after the rewrite either
    let (none, plain) = librs("fn f() {}").unwrap();
    assert!(none.is_empty());
    assert!(librs(&plain).unwrap().0.is_empty());
}

#[test]
fn librs_takes_the_raw_mark_from_the_inner_name() {
    let (fns, text) = librs("#[proc_macro] pub fn r#try(i: TokenStream) -> TokenStream { i }").unwrap();
    assert_eq!(fns.len(), 1);
    assert_eq!(fns[0].name, "r#try");
    assert_eq!(functions(&text), vec!["try_inner".to_string(), "r#try".to_string()]);
    assert!(text.contains("MACRO . proc_macro (\"r#try\" , input)"));
}

#[test]
fn rename_adds_to_the_name_without_the_raw_mark() {
    let mut m = Module::parse("fn r#match() {} fn plain() {}").unwrap();
    m.rename(0, "_inner");
    m.rename(1, "_2");
    m.rename(1, "");
    assert_eq!(functions(&m.print()), vec!["match_inner".to_string(), "plain_2".to_string()]);
}

#[test]
fn retype_leaves_a_receiver_and_needs_a_type() {
    let mut m = Module::parse("fn f(&self, a: u8, (b, c): (u8, u8)) -> u8 { a }").unwrap();
    assert!(!m.retype(0, "not a type ::"));
    assert_eq!(m.print(), Module::parse("fn f(&self, a: u8, (b, c): (u8, u8)) -> u8 { a }").unwrap().print());
    assert!(m.retype(0, "T"));
    assert_eq!(m.print(), Module::parse("fn f(&self, a: T, (b, c): T) -> T { a }").unwrap().print());
    let mut bare = Module::parse("fn g() {}").unwrap();
    assert!(bare.retype(0, "proc_macro2::TokenStream"));
    assert_eq!(bare.print(), Module::parse("fn g() -> proc_macro2::TokenStream {}").unwrap().print());
}

#[test]
fn push_inner_attr_prints_as_the_annotation_does() {
    let mut m = Module::parse("fn f() {}").unwrap();
    m.push_inner_attr("allow", "warnings");
    assert_eq!(m.print(), "# ! [allow (warnings)] fn f () { }");
    assert_eq!(m.print(), Module::parse("#![allow(warnings)] fn f() {}").unwrap().print());
}

#[test]
fn source_errors_say_what_is_wrong() {
    assert_eq!(SourceError::Rewrite.message(), "a macro entry point cannot be rewritten");
    match librs("fn f( {") {
        Err(e @ SourceError::Parse(_)) => assert!(!e.message().is_empty()),
        _ => panic!("this is no source"),
    }
}

#[test]
fn parse_attributes_reads_outer_annotations() {
    let attrs = parse_attributes("#[no_mangle] #[proc_macro]").unwrap();
    assert_eq!(attrs.len(), 2);
    assert_eq!(attrs[0].meta.as_ref().unwrap().head.ident.as_deref(), Some("no_mangle"));
    assert_eq!(macro_kind(&attrs), Some(ProcMacroKind::Macro));
    assert_eq!(parse_attributes("").unwrap().len(), 0);
    assert!(parse_attributes("#[").is_none());
    assert!(parse_attributes("struct S;").is_none());
}

#[test]
fn dump_replace_turns_paths_to_proc_macro2() {
    assert_eq!(
        dump_replace("fn f(a: proc_macro::TokenStream) -> proc_macro :: TokenStream {}"),
        Some("fn f(a: proc_macro2 ::TokenStream) -> proc_macro2 :: TokenStream {}".to_string())
    );
    assert_eq!(dump_replace("use proc_macro2::TokenStream; extern crate proc_macro;"), None);
    assert_eq!(dump_replace(""), None);
    assert_eq!(dump_replace("proc_macro:"), None);
    assert_eq!(dump_replace("proc_macro::"), Some("proc_macro2 ::".to_string()));
}

#[test]
fn replace_all_goes_from_the_left() {
    assert_eq!(replace_all("aaa", "aa", "b"), ("ba".to_string(), true));
    assert_eq!(replace_all("abcabc", "bc", ""), ("aa".to_string(), true));
    assert_eq!(replace_all("abc", "abcd", "x"), ("abc".to_string(), false));
    assert_eq!(replace_all("", "a", "x"), (String::new(), false));
    assert_eq!(replace_all("héllo wörld", "ö", "oe"), ("héllo woerld".to_string(), true));
    assert_eq!(replace_all("xyz", "z", "zz"), ("xyzz".to_string(), true));
    assert_eq!(replace_all("xyz", "", "-"), ("xyz".to_string(), false));
    assert_eq!(replace_all("", "", "-"), (String::new(), false));
}

#[test]
fn text_helpers_join_and_compare() {
    assert!(str_eq("a", "a"));
    assert!(!str_eq("a", "b"));
    assert_eq!(join2("a", "b"), "ab");
    assert_eq!(join3("a", "/", "b"), "a/b");
    assert_eq!(chars_of("aé"), vec!['a', 'é']);
}

#[test]
fn make_modifications_rewrites_both_texts() {
    let manifest = "[package]\nname = \"a\"\n[lib]\nproc-macro = true\n";
    let done = make_modifications(manifest, TWO_MACROS).unwrap();
    assert_eq!(done.fns.len(), 2);
    assert_eq!(done.lib, librs(TWO_MACROS).unwrap().1);
    assert_eq!(done.manifest, cargo_watt::rewrite::cargo_toml(manifest).unwrap());
    assert!(matches!(make_modifications("[", "fn f( {"), Err(ModificationError::Manifest(_))));
    assert!(matches!(
        make_modifications(manifest, "fn f( {"),
        Err(ModificationError::Source(SourceError::Parse(_)))
    ));
}

#[test]
fn host_package_files_are_named_after_the_package() {
    assert_eq!(crate_dir("my-macro"), "my-macro-watt");
    assert_eq!(wasm_file_name("my-macro", false), "my-macro.wasm");
    assert_eq!(wasm_file_name("my-macro", true), "my-macro.wasm.deflate");
}

#[test]
fn output_action_needs_leave_to_overwrite() {
    assert_eq!(output_action(false, false), Ok(OutputAction::Create));
    assert_eq!(output_action(false, true), Ok(OutputAction::Create));
    assert_eq!(output_action(true, true), Ok(OutputAction::Replace));
    assert_eq!(output_action(true, false), Err(AlreadyExists));
    assert_eq!(AlreadyExists::message("a-watt"), "'a-watt' already exists. Use --overwrite to overwrite.");
}

#[test]
fn statics_embed_the_module() {
    assert_eq!(
        statics("a.wasm", false),
        "static WASM: &[u8] = include_bytes!(\"a.wasm\");\nstatic MACRO: watt::WasmMacro = watt::WasmMacro::new(WASM);\n"
    );
    let lazy = statics("a.wasm.deflate", true);
    assert!(lazy.contains("include_bytes!(\"a.wasm.deflate\")"));
    assert!(lazy.contains("miniz_oxide::inflate::decompress_to_vec"));
    assert!(Module::parse(&lazy).is_ok());
}

#[test]
fn a_package_with_a_bare_and_an_attribute_macro() {
    let (fns, _) = librs(TWO_MACROS).unwrap();
    let lib = watt_librs("my-macro", &fns, false);
    assert!(lib.contains("include_bytes!(\"my-macro.wasm\")"));
    assert!(!uses_proc_macro_hack(&fns));
    assert!(!lib.contains("proc_macro_hack"));
    let module = Module::parse(&lib).unwrap();
    assert_eq!(functions(&lib), vec!["my_macro".to_string(), "attribute_macro_twice".to_string()]);
    assert_eq!(module.len(), 4);
    assert_eq!(macro_kind(&annotations_of(&lib, "my_macro")), Some(ProcMacroKind::Macro));
    assert_eq!(macro_kind(&annotations_of(&lib, "attribute_macro_twice")), Some(ProcMacroKind::Attribute));
    assert!(lib.contains("pub fn my_macro(input"));
    assert!(lib.contains("pub fn attribute_macro_twice(args"));
    assert_eq!(cargo_watt::compile::wasm_path(None, "/tmp/x", "my-macro"), "/tmp/x/target/wasm32-unknown-unknown/release/my_macro.wasm");
}

#[test]
fn create_watt_crate_makes_the_files_of_the_new_package() {
    let mut manifest = cargo_watt::document::Manifest::load(
        "[package]\nname = \"my-macro\"\n\n[lib]\nproc-macro = true\n\n[dependencies]\nsyn = \"1\"\n\n[features]\nfast = [\"syn/full\"]\n",
    )
    .unwrap();
    let (fns, _) = librs(TWO_MACROS).unwrap();
    let files = create_watt_crate(&mut manifest, "my-macro", &fns, true);
    assert!(files.had_features);
    assert_eq!(files.wasm_file, "my-macro.wasm.deflate");
    assert_eq!(files.lib, watt_librs("my-macro", &fns, true));
    assert_eq!(files.manifest, manifest.write());
    assert_eq!(
        files.manifest,
        "[package]\nname = \"my-macro\"\n\n[lib]\nproc-macro = true\n\n[dependencies]\nwatt = \"0.4\"\nminiz_oxide = \"0.3\"\nonce_cell = \"1.4\"\n\n[features]\nfast = []\n"
    );
}

#[test]
fn watt_librs_imports_proc_macro_hack_where_it_is_used() {
    let fns = vec![ProcMacroFn {
        name: "h".to_string(),
        attrs: vec!["#[proc_macro_hack]".to_string()],
        kind: ProcMacroKind::ProcMacroHack,
    }];
    assert!(uses_proc_macro_hack(&fns));
    assert_eq!(
        watt_librs("p", &fns, false),
        "static WASM: &[u8] = include_bytes!(\"p.wasm\");\nstatic MACRO: watt::WasmMacro = watt::WasmMacro::new(WASM);\nuse proc_macro_hack::proc_macro_hack;\n#[proc_macro_hack]\npub fn h(input: proc_macro::TokenStream) -> proc_macro::TokenStream { MACRO.proc_macro(\"h\", input) }\n"
    );
    assert_eq!(
        watt_librs("p", &Vec::new(), false),
        "static WASM: &[u8] = include_bytes!(\"p.wasm\");\nstatic MACRO: watt::WasmMacro = watt::WasmMacro::new(WASM);\n"
    );
}
