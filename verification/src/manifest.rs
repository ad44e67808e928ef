//! What a macro package's manifest must hold, and how it is rewritten for
//! the two packages that are made of it.

use crate::document::{
    entry_at, path1, path2, toml_entries, Entries, Entry, EntryView, Manifest, ParseError,
};
use crate::text::str_eq;
use vstd::prelude::*;

verus! {

/// A dependency that cannot run inside a WebAssembly module.
#[derive(Debug, Clone, Copy, PartialEq, Eq, Structural)]
pub enum UnsupportedDep {
    SynMid,
    Synstructure,
}

impl UnsupportedDep {
    /// The package's name.
    pub open spec fn spec_name(self) -> Seq<char> {
        match self {
            UnsupportedDep::SynMid => "syn-mid"@,
            UnsupportedDep::Synstructure => "synstructure"@,
        }
    }

    /// The package's name.
    pub fn name(self) -> (r: &'static str)
        ensures
            r@ == self.spec_name(),
    {
        match self {
            UnsupportedDep::SynMid => "syn-mid",
            UnsupportedDep::Synstructure => "synstructure",
        }
    }
}

/// Why a manifest is not that of a macro package that can be converted.
#[derive(Debug, Clone, Copy, PartialEq, Eq, Structural)]
pub enum ValidationError {
    /// There is no `package` entry.
    NoPackage,
    /// `package.name` is missing or is not a string.
    NoName,
    /// `lib.proc-macro` is not `true`.
    NotProcMacro,
    /// The package already depends on `watt`.
    AlreadyWatt,
    /// The package depends on something that cannot be converted.
    Unsupported(UnsupportedDep),
}

impl ValidationError {
    pub open spec fn spec_message(self) -> Seq<char> {
        match self {
            ValidationError::NoPackage => "Cargo.toml has no package"@,
            ValidationError::NoName => "Cargo.toml has no name"@,
            ValidationError::NotProcMacro => "crate is not a proc macro"@,
            ValidationError::AlreadyWatt => "already a 'watt' crate"@,
            ValidationError::Unsupported(dep) => "crate has dependency on '"@ + dep.spec_name()
                + "', which doesn't work with cargo watt"@,
        }
    }

    /// What to tell the user.
    pub fn message(self) -> (r: String)
        ensures
            r@ == self.spec_message(),
    {
        match self {
            ValidationError::NoPackage => "Cargo.toml has no package".to_owned(),
            ValidationError::NoName => "Cargo.toml has no name".to_owned(),
            ValidationError::NotProcMacro => "crate is not a proc macro".to_owned(),
            ValidationError::AlreadyWatt => "already a 'watt' crate".to_owned(),
            ValidationError::Unsupported(dep) => {
                let mut r = "crate has dependency on '".to_owned();
                r.append(dep.name());
                r.append("', which doesn't work with cargo watt");
                r
            },
        }
    }
}

/// Why a text cannot be taken as the manifest of a macro package.
#[derive(Debug, Clone)]
pub enum ManifestError {
    /// The text is not TOML.
    Parse(ParseError),
    /// The manifest is not that of a macro package that can be converted.
    Invalid(ValidationError),
}

impl ManifestError {
    /// What the error says: of a text that is not TOML only that; of a
    /// manifest that fails a check, which one.
    pub open spec fn spec_message(self) -> Seq<char> {
        match self {
            ManifestError::Parse(_) => "failed to parse Cargo.toml"@,
            ManifestError::Invalid(e) => e.spec_message(),
        }
    }

    /// What to tell the user. The parser's own words stay in the error
    /// that `Parse` carries.
    pub fn message(&self) -> (r: String)
        ensures
            r@ == self.spec_message(),
    {
        match self {
            ManifestError::Parse(_) => "failed to parse Cargo.toml".to_owned(),
            ManifestError::Invalid(e) => e.message(),
        }
    }
}

/// The checks of a manifest, in their order; the first that fails names the error.
pub open spec fn spec_validate(m: Entries) -> Result<(), ValidationError> {
    if !m.dom().contains(seq!["package"@]) {
        Err(ValidationError::NoPackage)
    } else if !(entry_at(m, seq!["package"@, "name"@]) matches Some(EntryView::Str(_))) {
        Err(ValidationError::NoName)
    } else if entry_at(m, seq!["lib"@, "proc-macro"@]) != Some(EntryView::Bool(true)) {
        Err(ValidationError::NotProcMacro)
    } else if m.dom().contains(seq!["dependencies"@, "watt"@]) {
        Err(ValidationError::AlreadyWatt)
    } else if m.dom().contains(seq!["dependencies"@, "syn-mid"@]) {
        Err(ValidationError::Unsupported(UnsupportedDep::SynMid))
    } else if m.dom().contains(seq!["dependencies"@, "synstructure"@]) {
        Err(ValidationError::Unsupported(UnsupportedDep::Synstructure))
    } else {
        Ok(())
    }
}

/// Whether an entry stands at `path`.
fn has_entry(m: &Manifest, path: &Vec<String>) -> (r: bool)
    ensures
        r == m@.dom().contains(path.deep_view()),
{
    m.get(path).is_some()
}

/// Checks that a manifest is that of a macro package that can be converted.
pub fn validate(m: &Manifest) -> (r: Result<(), ValidationError>)
    ensures
        r == spec_validate(m@),
{
    if !has_entry(m, &path1("package")) {
        return Err(ValidationError::NoPackage);
    }
    match m.get(&path2("package", "name")) {
        Some(Entry::Str(_)) => {},
        _ => {
            return Err(ValidationError::NoName);
        },
    }
    match m.get(&path2("lib", "proc-macro")) {
        Some(Entry::Bool(true)) => {},
        _ => {
            return Err(ValidationError::NotProcMacro);
        },
    }
    if has_entry(m, &path2("dependencies", "watt")) {
        return Err(ValidationError::AlreadyWatt);
    }
    if has_entry(m, &path2("dependencies", UnsupportedDep::SynMid.name())) {
        return Err(ValidationError::Unsupported(UnsupportedDep::SynMid));
    }
    if has_entry(m, &path2("dependencies", UnsupportedDep::Synstructure.name())) {
        return Err(ValidationError::Unsupported(UnsupportedDep::Synstructure));
    }
    Ok(())
}

/// Reads a manifest and checks it.
pub fn parse_validate_toml(text: &str) -> (r: Result<Manifest, ManifestError>)
    ensures
        match r {
            Ok(m) => toml_entries(text@) == Some(m@) && spec_validate(m@) is Ok,
            Err(ManifestError::Parse(_)) => toml_entries(text@) is None,
            Err(ManifestError::Invalid(e)) => toml_entries(text@) is Some && spec_validate(
                toml_entries(text@).unwrap(),
            ) == Err::<(), ValidationError>(e),
        },
{
    match Manifest::load(text) {
        Err(e) => Err(ManifestError::Parse(e)),
        Ok(m) => match validate(&m) {
            Ok(()) => Ok(m),
            Err(e) => Err(ManifestError::Invalid(e)),
        },
    }
}

/// The package's name, where the manifest gives one.
pub fn package_name(m: &Manifest) -> (r: Option<String>)
    ensures
        match r {
            Some(name) => entry_at(m@, seq!["package"@, "name"@]) == Some(EntryView::Str(name@)),
            None => !(entry_at(m@, seq!["package"@, "name"@]) matches Some(EntryView::Str(_))),
        },
{
    match m.get(&path2("package", "name")) {
        Some(Entry::Str(name)) => Some(name),
        _ => None,
    }
}

/// Whether the package is of the 2018 edition, for which macro packages
/// are known to convert.
pub fn is_2018_edition(m: &Manifest) -> (r: bool)
    ensures
        r == (entry_at(m@, seq!["package"@, "edition"@]) == Some(EntryView::Str("2018"@))),
{
    match m.get(&path2("package", "edition")) {
        Some(Entry::Str(edition)) => str_eq(edition.as_str(), "2018"),
        _ => false,
    }
}

} // verus!
