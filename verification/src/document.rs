//! The manifest document: a TOML text held as a tree that keeps its layout,
//! read and edited by key paths.

use toml_edit::{value, Array, DocumentMut, InlineTable, Item, Table, TomlError, Value};
use vstd::prelude::*;

verus! {

/// What stands under a key of a manifest.
#[derive(Debug, Clone)]
pub enum Entry {
    Str(String),
    Bool(bool),
    Integer(i64),
    /// An array; each element that is a string, as that string.
    Array(Vec<Option<String>>),
    /// A table, written as a section or inline.
    Table,
    /// Anything else: a float, a date, an array of tables.
    Other,
}

/// What can be written under a key of a manifest.
#[derive(Debug, Clone)]
pub enum Setting {
    Str(String),
    Bool(bool),
    Integer(i64),
    /// An array of strings.
    List(Vec<String>),
    /// An empty table: an inline table if `inline`, else a section, which
    /// is shown only once it holds a value.
    Table { inline: bool },
}

/// The mathematical value of an [`Entry`].
pub enum EntryView {
    Str(Seq<char>),
    Bool(bool),
    Integer(i64),
    Array(Seq<Option<Seq<char>>>),
    Table,
    Other,
}

impl DeepView for Entry {
    type V = EntryView;

    open spec fn deep_view(&self) -> EntryView {
        match self {
            Entry::Str(s) => EntryView::Str(s@),
            Entry::Bool(b) => EntryView::Bool(*b),
            Entry::Integer(n) => EntryView::Integer(*n),
            Entry::Array(a) => EntryView::Array(a.deep_view()),
            Entry::Table => EntryView::Table,
            Entry::Other => EntryView::Other,
        }
    }
}

impl DeepView for Setting {
    type V = EntryView;

    /// The entry that is found where this setting was written.
    open spec fn deep_view(&self) -> EntryView {
        match self {
            Setting::Str(s) => EntryView::Str(s@),
            Setting::Bool(b) => EntryView::Bool(*b),
            Setting::Integer(n) => EntryView::Integer(*n),
            Setting::List(l) => EntryView::Array(string_array(l.deep_view())),
            Setting::Table { .. } => EntryView::Table,
        }
    }
}

/// An array that holds exactly the given strings.
pub open spec fn string_array(l: Seq<Seq<char>>) -> Seq<Option<Seq<char>>> {
    Seq::new(l.len(), |i: int| Some(l[i]))
}

/// A key path: the keys from the root of the document down to an entry.
pub type KeyPath = Seq<Seq<char>>;

/// The entries of a document, each under its full key path.
pub type Entries = Map<KeyPath, EntryView>;

/// `p` is `q` or leads to an entry above `q`.
pub open spec fn is_prefix(p: KeyPath, q: KeyPath) -> bool {
    p.len() <= q.len() && q.subrange(0, p.len() as int) == p
}

/// A table stands at `p`; the root, with the empty path, is one.
pub open spec fn has_table(m: Entries, p: KeyPath) -> bool {
    p.len() == 0 || (m.dom().contains(p) && m[p] == EntryView::Table)
}

/// Every entry has a key, and stands in a table.
pub open spec fn well_formed(m: Entries) -> bool {
    forall|q: KeyPath| #[trigger]
        m.dom().contains(q) ==> q.len() > 0 && has_table(m, q.drop_last())
}

/// `m` without the entry at `p` and all that stands below it.
pub open spec fn without(m: Entries, p: KeyPath) -> Entries {
    Map::new(|q: KeyPath| m.dom().contains(q) && !is_prefix(p, q), |q: KeyPath| m[q])
}

/// `m` with `e` at `p` in place of what stood there and below it.
pub open spec fn with_entry(m: Entries, p: KeyPath, e: EntryView) -> Entries {
    without(m, p).insert(p, e)
}

/// What stands at `p`, if anything does.
pub open spec fn entry_at(m: Entries, p: KeyPath) -> Option<EntryView> {
    if m.dom().contains(p) {
        Some(m[p])
    } else {
        None
    }
}

/// `m` after `e` was written under `key` of the table at `table`: where no
/// table stands there, `m` itself.
pub open spec fn written(m: Entries, table: KeyPath, key: Seq<char>, e: EntryView) -> Entries {
    if has_table(m, table) {
        with_entry(m, table.push(key), e)
    } else {
        m
    }
}

#[verifier::external_type_specification]
#[verifier::external_body]
pub struct ExDocumentMut(DocumentMut);

#[verifier::external_type_specification]
#[verifier::external_body]
pub struct ExTomlError(TomlError);

/// The entries that a document holds: every key path that leads from the
/// root through tables to an entry, with what stands there.
pub uninterp spec fn doc_entries(doc: DocumentMut) -> Entries;

/// The text that a document is written as.
pub uninterp spec fn doc_text(doc: DocumentMut) -> Seq<char>;

/// The entries that a text holds when read as TOML; `None` where it is not TOML.
pub uninterp spec fn toml_entries(text: Seq<char>) -> Option<Entries>;

/// `str::parse::<toml_edit::DocumentMut>`: the text is read as TOML. It is
/// accepted exactly when it is well-formed; the document then holds the
/// entries of the text, each of them inside a table.
#[verifier::external_body]
fn parse_document(text: &str) -> (r: Result<DocumentMut, TomlError>)
    ensures
        match r {
            Ok(doc) => toml_entries(text@) == Some(doc_entries(doc)) && well_formed(
                doc_entries(doc),
            ),
            Err(_) => toml_entries(text@) is None,
        },
{
    text.parse::<DocumentMut>()
}

/// `TomlError`'s `Display`: the parser's message with line and column.
/// Nothing is claimed of the text.
#[verifier::external_body]
fn error_message(e: &TomlError) -> String {
    e.to_string()
}

/// `DocumentMut`'s `Display`: the document as text.
#[verifier::external_body]
fn print_document(doc: &DocumentMut) -> (r: String)
    ensures
        r@ == doc_text(*doc),
{
    doc.to_string()
}

/// `TableLike::get`, key by key from the root: the entry at `path`, if the
/// path leads through tables to one.
#[verifier::external_body]
fn lookup(doc: &DocumentMut, path: &Vec<String>) -> (r: Option<Entry>)
    requires
        path.len() > 0,
    ensures
        r.deep_view() == entry_at(doc_entries(*doc), path.deep_view()),
{
    let found = path.iter().try_fold(doc.as_item(), |item, k| item.as_table_like()?.get(k))?;
    Some(match found.as_value() {
        Some(Value::String(s)) => Entry::Str(s.value().clone()),
        Some(Value::Boolean(b)) => Entry::Bool(*b.value()),
        Some(Value::Integer(n)) => Entry::Integer(*n.value()),
        Some(Value::Array(a)) => Entry::Array(a.iter().map(|v| v.as_str().map(String::from)).collect()),
        _ if found.is_table_like() => Entry::Table,
        _ => Entry::Other,
    })
}

/// `TableLike::iter` on the table at `table`: the keys of its entries, in
/// the table's order, each once. Empty where no table stands there.
#[verifier::external_body]
fn child_keys(doc: &DocumentMut, table: &Vec<String>) -> (r: Vec<String>)
    ensures
        r.deep_view().no_duplicates(),
        forall|k: Seq<char>| #[trigger]
            r.deep_view().contains(k) <==> doc_entries(*doc).dom().contains(
                table.deep_view().push(k),
            ),
{
    let found = table.iter().try_fold(doc.as_item(), |item, k| item.as_table_like()?.get(k));
    match found.and_then(|item| item.as_table_like()) {
        Some(t) => t.iter().map(|(k, _)| k.to_string()).collect(),
        None => Vec::new(),
    }
}

/// `TableLike::insert` on the table at `table`: `setting` is written under
/// `key`, in place of what stood there and below it. The item is made
/// with `toml_edit::value`; an empty table with `InlineTable::new` or, as
/// a section, with `Table::new` and `Table::set_implicit`. Where no table
/// stands at `table` nothing is changed and `false` is returned. Does not
/// panic.
#[verifier::external_body]
fn insert_entry(doc: &mut DocumentMut, table: &Vec<String>, key: &str, setting: &Setting) -> (ok:
    bool)
    ensures
        ok == has_table(doc_entries(*old(doc)), table.deep_view()),
        doc_entries(*final(doc)) == written(
            doc_entries(*old(doc)),
            table.deep_view(),
            key@,
            setting.deep_view(),
        ),
    no_unwind
{
    let found = table.iter().try_fold(doc.as_item_mut(), |item, k| item.as_table_like_mut()?.get_mut(k));
    let Some(t) = found.and_then(|item| item.as_table_like_mut()) else { return false; };
    let mut section = Table::new();
    section.set_implicit(true);
    t.insert(key, match setting {
        Setting::Str(s) => value(s),
        Setting::Bool(b) => value(*b),
        Setting::Integer(n) => value(*n),
        Setting::List(l) => value(Array::from_iter(l)),
        Setting::Table { inline: true } => value(InlineTable::new()),
        Setting::Table { inline: false } => Item::Table(section),
    });
    true
}

/// `TableLike::remove` on the table at `table`: the entry under `key` goes,
/// with all that stands below it. Does not panic.
#[verifier::external_body]
fn remove_entry(doc: &mut DocumentMut, table: &Vec<String>, key: &str)
    ensures
        doc_entries(*final(doc)) == without(doc_entries(*old(doc)), table.deep_view().push(key@)),
    no_unwind
{
    let found = table.iter().try_fold(doc.as_item_mut(), |item, k| item.as_table_like_mut()?.get_mut(k));
    if let Some(t) = found.and_then(|item| item.as_table_like_mut()) {
        t.remove(key);
    }
}

/// Removing an entry leaves every other entry inside a table.
pub proof fn lemma_without_well_formed(m: Entries, p: KeyPath)
    requires
        well_formed(m),
    ensures
        well_formed(without(m, p)),
{
    let w = without(m, p);
    assert forall|q: KeyPath| #[trigger] w.dom().contains(q) implies q.len() > 0 && has_table(
        w,
        q.drop_last(),
    ) by {
        assert(m.dom().contains(q));
        let d = q.drop_last();
        if d.len() > 0 {
            if is_prefix(p, d) {
                assert(q.subrange(0, p.len() as int) =~= d.subrange(0, p.len() as int));
            }
        }
    }
}

/// Writing into a table leaves every entry inside a table.
pub proof fn lemma_written_well_formed(m: Entries, table: KeyPath, key: Seq<char>, e: EntryView)
    requires
        well_formed(m),
    ensures
        well_formed(written(m, table, key, e)),
{
    if has_table(m, table) {
        let p = table.push(key);
        lemma_without_well_formed(m, p);
        let w = without(m, p);
        let r = with_entry(m, p, e);
        assert(p.drop_last() =~= table);
        assert forall|q: KeyPath| #[trigger] r.dom().contains(q) implies q.len() > 0 && has_table(
            r,
            q.drop_last(),
        ) by {
            let d = q.drop_last();
            if q == p {
                if table.len() > 0 {
                    assert(table.subrange(0, p.len() as int) != p || !is_prefix(p, table));
                    assert(w.dom().contains(table));
                }
            } else {
                assert(w.dom().contains(q));
                if d.len() > 0 {
                    assert(w.dom().contains(d));
                    if d == p {
                        assert(is_prefix(p, q)) by {
                            assert(q.subrange(0, p.len() as int) =~= d);
                        }
                    }
                }
            }
        }
    }
}

/// The path of the root table.
pub fn root() -> (p: Vec<String>)
    ensures
        p.deep_view() == Seq::<Seq<char>>::empty(),
{
    let p: Vec<String> = Vec::new();
    assert(p.deep_view() =~= Seq::<Seq<char>>::empty());
    p
}

/// The path of the entry `a` of the root table.
pub fn path1(a: &str) -> (p: Vec<String>)
    ensures
        p.deep_view() == seq![a@],
{
    let mut p: Vec<String> = Vec::new();
    p.push(a.to_owned());
    assert(p.deep_view() =~= seq![a@]);
    p
}

/// The path of the entry `b` of the table `a`.
pub fn path2(a: &str, b: &str) -> (p: Vec<String>)
    ensures
        p.deep_view() == seq![a@, b@],
{
    let mut p: Vec<String> = Vec::new();
    p.push(a.to_owned());
    p.push(b.to_owned());
    assert(p.deep_view() =~= seq![a@, b@]);
    p
}

/// The path of the entry `key` of the table at `table`.
pub fn child(table: &Vec<String>, key: &str) -> (p: Vec<String>)
    ensures
        p.deep_view() == table.deep_view().push(key@),
{
    let mut p: Vec<String> = Vec::new();
    let mut i: usize = 0;
    while i < table.len()
        invariant
            i <= table.len(),
            p@.len() == i,
            forall|j: int| 0 <= j < i ==> (#[trigger] p@[j])@ == table@[j]@,
        decreases table.len() - i,
    {
        p.push(table[i].clone());
        i += 1;
    }
    p.push(key.to_owned());
    assert forall|j: int| 0 <= j < p@.len() implies #[trigger] p.deep_view()[j]
        == table.deep_view().push(key@)[j] by {
        if j < table@.len() {
            assert(p@[j]@ == table@[j]@);
        }
    }
    assert(p.deep_view() =~= table.deep_view().push(key@));
    p
}

/// A manifest, as read from a text.
pub struct Manifest {
    doc: DocumentMut,
}

impl View for Manifest {
    type V = Entries;

    /// The entries of the manifest, each under its key path.
    closed spec fn view(&self) -> Entries {
        doc_entries(self.doc)
    }
}

/// Why a text is no manifest: what the parser said of it.
#[derive(Debug, Clone)]
pub struct ParseError {
    pub message: String,
}

impl Manifest {
    #[verifier::type_invariant]
    spec fn entries_in_tables(self) -> bool {
        well_formed(doc_entries(self.doc))
    }

    /// The text that the manifest is written as.
    pub closed spec fn text(&self) -> Seq<char> {
        doc_text(self.doc)
    }

    /// Reads a manifest. Fails exactly on a text that is not TOML.
    pub fn load(text: &str) -> (r: Result<Manifest, ParseError>)
        ensures
            match r {
                Ok(m) => toml_entries(text@) == Some(m@),
                Err(_) => toml_entries(text@) is None,
            },
    {
        match parse_document(text) {
            Ok(doc) => Ok(Manifest { doc }),
            Err(e) => Err(ParseError { message: error_message(&e) }),
        }
    }

    /// Writes the manifest out.
    pub fn write(&self) -> (r: String)
        ensures
            r@ == self.text(),
    {
        print_document(&self.doc)
    }

    /// Every entry of a manifest has a key and stands in a table. Does
    /// nothing when run: it hands the fact to the caller's proof.
    pub fn well_formed(&self)
        ensures
            well_formed(self@),
    {
        proof {
            use_type_invariant(self);
        }
    }

    /// The entry at `path`, if there is one. The empty path leads to
    /// none: the root is no entry.
    pub fn get(&self, path: &Vec<String>) -> (r: Option<Entry>)
        ensures
            r.deep_view() == entry_at(self@, path.deep_view()),
    {
        if path.len() == 0 {
            proof {
                use_type_invariant(self);
            }
            return None;
        }
        lookup(&self.doc, path)
    }

    /// The keys of the entries that stand directly in the table at
    /// `table`, each once.
    pub fn keys(&self, table: &Vec<String>) -> (r: Vec<String>)
        ensures
            r.deep_view().no_duplicates(),
            forall|k: Seq<char>| #[trigger]
                r.deep_view().contains(k) <==> self@.dom().contains(table.deep_view().push(k)),
    {
        child_keys(&self.doc, table)
    }

    /// Writes `setting` under `key` of the table at `table`. Where no table
    /// stands there, the manifest stays as it is and `false` is returned.
    pub fn put(&mut self, table: &Vec<String>, key: &str, setting: &Setting) -> (ok: bool)
        ensures
            ok == has_table(old(self)@, table.deep_view()),
            final(self)@ == written(old(self)@, table.deep_view(), key@, setting.deep_view()),
    {
        proof {
            use_type_invariant(&*self);
            lemma_written_well_formed(self@, table.deep_view(), key@, setting.deep_view());
        }
        insert_entry(&mut self.doc, table, key, setting)
    }

    /// Writes an empty table under `key` of the table at `table`. Where no
    /// table stands there, the manifest stays as it is and `false` is returned.
    pub fn put_table(&mut self, table: &Vec<String>, key: &str, inline: bool) -> (ok: bool)
        ensures
            ok == has_table(old(self)@, table.deep_view()),
            final(self)@ == written(old(self)@, table.deep_view(), key@, EntryView::Table),
    {
        self.put(table, key, &Setting::Table { inline })
    }

    /// Removes the entry under `key` of the table at `table`, with all that
    /// stands below it.
    pub fn remove(&mut self, table: &Vec<String>, key: &str)
        ensures
            final(self)@ == without(old(self)@, table.deep_view().push(key@)),
    {
        proof {
            use_type_invariant(&*self);
            lemma_without_well_formed(self@, table.deep_view().push(key@));
        }
        remove_entry(&mut self.doc, table, key)
    }
}

} // verus!
