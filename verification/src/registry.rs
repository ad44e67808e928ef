//! The registry's answer on a package: which release is downloaded, and
//! from where.

use crate::text::join2;
use vstd::prelude::*;

verus! {

/// A release, as the registry lists it: whether it was withdrawn, and the
/// path that it is downloaded from. Either may be missing from the answer.
#[derive(Debug, Clone)]
pub struct Release {
    pub yanked: Option<bool>,
    pub dl_path: Option<String>,
}

/// Why no release can be downloaded.
#[derive(Debug, Clone, Copy, PartialEq, Eq, Structural)]
pub enum RegistryError {
    /// Every release was withdrawn, or there is none.
    NothingPublished,
    /// The release to take has no download path.
    MissingPath,
}

impl RegistryError {
    pub open spec fn spec_message(self) -> Seq<char> {
        match self {
            RegistryError::NothingPublished => "no published non-yanked versions"@,
            RegistryError::MissingPath => "invalid crates.io response: missing dl_path"@,
        }
    }

    /// What to tell the user.
    pub fn message(self) -> (r: &'static str)
        ensures
            r@ == self.spec_message(),
    {
        match self {
            RegistryError::NothingPublished => "no published non-yanked versions",
            RegistryError::MissingPath => "invalid crates.io response: missing dl_path",
        }
    }
}

/// The release was withdrawn; one that does not say counts as published.
pub open spec fn is_yanked(r: Release) -> bool {
    r.yanked == Some(true)
}

/// The place of the first release that was not withdrawn, if there is one.
pub open spec fn first_published(releases: Seq<Release>) -> Option<int>
    decreases releases.len(),
{
    if releases.len() == 0 {
        None
    } else if !is_yanked(releases[0]) {
        Some(0)
    } else {
        match first_published(releases.drop_first()) {
            Some(i) => Some(i + 1),
            None => None,
        }
    }
}

/// The registry's address for what it knows of the package `name`.
pub fn crate_url(name: &str) -> (r: String)
    ensures
        r@ == "https://crates.io/api/v1/crates/"@ + name@,
{
    join2("https://crates.io/api/v1/crates/", name)
}

/// The registry's address for the download path `dl_path`.
pub fn download_url(dl_path: &str) -> (r: String)
    ensures
        r@ == "https://crates.io"@ + dl_path@,
{
    join2("https://crates.io", dl_path)
}

/// The download path of the release to take: the first in the registry's
/// list, which has the newest first, that was not withdrawn.
pub fn download_path(releases: &Vec<Release>) -> (r: Result<String, RegistryError>)
    ensures
        match first_published(releases@) {
            None => r == Err::<String, RegistryError>(RegistryError::NothingPublished),
            Some(i) => match releases@[i].dl_path {
                None => r == Err::<String, RegistryError>(RegistryError::MissingPath),
                Some(path) => r is Ok && r->Ok_0@ == path@,
            },
        },
        first_published(releases@) matches Some(i) ==> 0 <= i < releases.len(),
{
    let mut i: usize = 0;
    assert(releases@.skip(0) =~= releases@);
    while i < releases.len()
        invariant
            i <= releases.len(),
            first_published(releases@) == match first_published(releases@.skip(i as int)) {
                Some(k) => Some(k + i),
                None => None,
            },
        decreases releases.len() - i,
    {
        let ghost rest = releases@.skip(i as int);
        assert(rest[0] == releases@[i as int]);
        assert(rest.drop_first() =~= releases@.skip(i + 1));
        let yanked = match releases[i].yanked {
            Some(true) => true,
            _ => false,
        };
        if !yanked {
            return match &releases[i].dl_path {
                Some(path) => Ok(path.clone()),
                None => Err(RegistryError::MissingPath),
            };
        }
        i += 1;
    }
    Err(RegistryError::NothingPublished)
}

/// The address that the package is downloaded from, given the releases
/// that the registry lists for it.
pub fn download_crate(releases: &Vec<Release>) -> (r: Result<String, RegistryError>)
    ensures
        match first_published(releases@) {
            None => r == Err::<String, RegistryError>(RegistryError::NothingPublished),
            Some(i) => match releases@[i].dl_path {
                None => r == Err::<String, RegistryError>(RegistryError::MissingPath),
                Some(path) => r is Ok && r->Ok_0@ == "https://crates.io"@ + path@,
            },
        },
{
    match download_path(releases) {
        Ok(path) => Ok(download_url(path.as_str())),
        Err(e) => Err(e),
    }
}

/// What to tell the user of a request that the registry refused.
pub fn status_message(status: u16, text: &str) -> (r: String)
    ensures
        r@ == "crates io request failed with status code "@ + spec_decimal(status as nat) + ": "@
            + text@,
{
    let mut r = "crates io request failed with status code ".to_owned();
    let digits = decimal(status);
    r.append(digits.as_str());
    r.append(": ");
    r.append(text);
    r
}

/// The decimal digit for `d`.
pub open spec fn spec_digit(d: nat) -> char {
    if d == 0 {
        '0'
    } else if d == 1 {
        '1'
    } else if d == 2 {
        '2'
    } else if d == 3 {
        '3'
    } else if d == 4 {
        '4'
    } else if d == 5 {
        '5'
    } else if d == 6 {
        '6'
    } else if d == 7 {
        '7'
    } else if d == 8 {
        '8'
    } else {
        '9'
    }
}

/// A number in decimal digits.
pub open spec fn spec_decimal(n: nat) -> Seq<char>
    decreases n,
{
    if n < 10 {
        seq![spec_digit(n)]
    } else {
        spec_decimal(n / 10).push(spec_digit(n % 10))
    }
}

fn digit(d: u16) -> (c: char)
    requires
        d < 10,
    ensures
        c == spec_digit(d as nat),
{
    if d == 0 {
        '0'
    } else if d == 1 {
        '1'
    } else if d == 2 {
        '2'
    } else if d == 3 {
        '3'
    } else if d == 4 {
        '4'
    } else if d == 5 {
        '5'
    } else if d == 6 {
        '6'
    } else if d == 7 {
        '7'
    } else if d == 8 {
        '8'
    } else {
        '9'
    }
}

/// A number in decimal digits.
pub fn decimal(n: u16) -> (r: String)
    ensures
        r@ == spec_decimal(n as nat),
    decreases n,
{
    if n < 10 {
        let mut r = String::new();
        crate::text::push_char(&mut r, digit(n));
        assert(r@ =~= seq![spec_digit(n as nat)]);
        r
    } else {
        let mut r = decimal(n / 10);
        crate::text::push_char(&mut r, digit(n % 10));
        r
    }
}

/// The components of an archive entry's path without the first, which is
/// the directory that the archive wraps everything in.
pub fn unpacked_path(components: &Vec<String>) -> (r: Vec<String>)
    ensures
        r.deep_view() == crate::files::spec_below(components.deep_view(), 1),
{
    let mut r: Vec<String> = Vec::new();
    let mut i: usize = 1;
    let ghost goal = crate::files::spec_below(components.deep_view(), 1);
    if components.len() == 0 {
        proof {
            crate::text::lemma_strings(r, goal);
        }
        return r;
    }
    while i < components.len()
        invariant
            1 <= i <= components.len(),
            r@.len() == i - 1,
            forall|j: int| 0 <= j < i - 1 ==> (#[trigger] r@[j])@ == components@[j + 1]@,
        decreases components.len() - i,
    {
        r.push(components[i].clone());
        i += 1;
    }
    proof {
        assert forall|j: int| 0 <= j < goal.len() implies (#[trigger] r@[j])@ == goal[j] by {
            assert(components.deep_view()[j + 1] == components@[j + 1]@);
        }
        crate::text::lemma_strings(r, goal);
    }
    r
}

} // verus!
