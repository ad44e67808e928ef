//! Small operations on strings, stated over sequences of characters.

use vstd::prelude::*;
use vstd::std_specs::iter::IteratorSpec;

verus! {

/// Whether two strings hold the same characters.
pub fn str_eq(a: &str, b: &str) -> (r: bool)
    ensures
        r == (a@ == b@),
{
    let x = a.to_owned();
    let y = b.to_owned();
    x == y
}

/// `a` followed by `b`.
pub fn join2(a: &str, b: &str) -> (r: String)
    ensures
        r@ == a@ + b@,
{
    let mut r = a.to_owned();
    r.append(b);
    r
}

/// `a`, `b` and `c` in a row.
pub fn join3(a: &str, b: &str, c: &str) -> (r: String)
    ensures
        r@ == a@ + b@ + c@,
{
    let mut r = a.to_owned();
    r.append(b);
    r.append(c);
    r
}

/// A vector of strings stands for the sequence of their characters'
/// sequences.
pub proof fn lemma_strings(v: Vec<String>, s: Seq<Seq<char>>)
    requires
        v@.len() == s.len(),
        forall|j: int| 0 <= j < s.len() ==> (#[trigger] v@[j])@ == s[j],
    ensures
        v.deep_view() == s,
{
    assert forall|j: int| 0 <= j < s.len() implies #[trigger] v.deep_view()[j] == s[j] by {
        assert(v@[j]@ == s[j]);
    }
    assert(v.deep_view() =~= s);
}

/// `String::push`: the character is added at the end.
#[verifier::external_body]
pub(crate) fn push_char(s: &mut String, c: char)
    ensures
        final(s)@ == old(s)@.push(c),
{
    s.push(c)
}

/// The characters of a string.
pub fn chars_of(s: &str) -> (r: Vec<char>)
    ensures
        r@ == s@,
{
    let mut r: Vec<char> = Vec::new();
    let n = s.unicode_len();
    let mut it = s.chars();
    let mut i: usize = 0;
    while i < n
        invariant
            i <= n,
            n == s@.len(),
            r@ == s@.take(i as int),
            it.remaining() == s@.skip(i as int),
            it.obeys_prophetic_iter_laws(),
        decreases n - i,
    {
        let c = it.next();
        match c {
            Some(c) => {
                r.push(c);
                assert(s@.skip(i as int)[0] == s@[i as int]);
                assert(r@ =~= s@.take(i + 1));
                assert(s@.skip(i as int).drop_first() =~= s@.skip(i + 1));
            },
            None => {
                assert(false);
            },
        }
        i += 1;
    }
    assert(s@.take(n as int) =~= s@);
    r
}

/// `needle` stands in `s` at `i`.
pub open spec fn occurs_at(s: Seq<char>, i: int, needle: Seq<char>) -> bool {
    0 <= i && i + needle.len() <= s.len() && s.subrange(i, i + needle.len()) == needle
}

/// `needle` stands somewhere in `s`.
pub open spec fn occurs(s: Seq<char>, needle: Seq<char>) -> bool {
    exists|i: int| occurs_at(s, i, needle)
}

/// `s` with each occurrence of `needle` replaced by `to`, from the left;
/// an occurrence that overlaps one that was replaced is not one.
pub open spec fn replaced(s: Seq<char>, needle: Seq<char>, to: Seq<char>) -> Seq<char>
    decreases s.len(),
{
    if needle.len() == 0 || s.len() < needle.len() {
        s
    } else if occurs_at(s, 0, needle) {
        to + replaced(s.skip(needle.len() as int), needle, to)
    } else {
        seq![s[0]] + replaced(s.skip(1), needle, to)
    }
}

/// Whether `needle` stands in `s` at `i`.
fn matches_at(s: &Vec<char>, i: usize, needle: &Vec<char>) -> (r: bool)
    requires
        i + needle.len() <= s.len(),
    ensures
        r == occurs_at(s@, i as int, needle@),
{
    let mut k: usize = 0;
    while k < needle.len()
        invariant
            k <= needle.len(),
            i + needle.len() <= s.len(),
            forall|j: int| 0 <= j < k ==> s@[i + j] == needle@[j],
        decreases needle.len() - k,
    {
        if s[i + k] != needle[k] {
            assert(s@.subrange(i as int, i + needle.len())[k as int] == s@[i + k]);
            return false;
        }
        k += 1;
    }
    assert(s@.subrange(i as int, i + needle.len()) =~= needle@);
    true
}

/// Replaces each occurrence of `needle` in `text` by `to`, from the left.
/// Says also whether there was one. An empty needle stands nowhere: the
/// text comes back as it is.
pub fn replace_all(text: &str, needle: &str, to: &str) -> (r: (String, bool))
    ensures
        r.0@ == replaced(text@, needle@, to@),
        r.1 == (needle@.len() > 0 && occurs(text@, needle@)),
{
    let s = chars_of(text);
    let n = chars_of(needle);
    if n.len() == 0 {
        return (text.to_owned(), false);
    }
    let mut out = String::new();
    let mut found = false;
    let mut i: usize = 0;
    assert(s@.skip(0) =~= s@);
    while i < s.len()
        invariant
            i <= s.len(),
            s@ == text@,
            n@ == needle@,
            n@.len() > 0,
            replaced(s@, n@, to@) == out@ + replaced(s@.skip(i as int), n@, to@),
            found ==> occurs(s@, n@),
            !found ==> forall|j: int| 0 <= j < i ==> !occurs_at(s@, j, n@),
        decreases s.len() - i,
    {
        let ghost rest = s@.skip(i as int);
        if n.len() <= s.len() - i && matches_at(&s, i, &n) {
            assert(rest.subrange(0, n@.len() as int) =~= s@.subrange(i as int, i + n@.len()));
            assert(rest.skip(n@.len() as int) =~= s@.skip(i + n@.len()));
            out.append(to);
            found = true;
            i += n.len();
        } else {
            assert(!occurs_at(rest, 0, n@)) by {
                if n@.len() <= rest.len() {
                    assert(rest.subrange(0, n@.len() as int) =~= s@.subrange(
                        i as int,
                        i + n@.len(),
                    ));
                }
            }
            assert(rest.skip(1) =~= s@.skip(i + 1));
            let ghost before = out@;
            push_char(&mut out, s[i]);
            proof {
                if rest.len() < n@.len() {
                    lemma_replaced_short(rest, n@, to@);
                    lemma_replaced_short(rest.skip(1), n@, to@);
                    assert(rest =~= seq![rest[0]] + rest.skip(1));
                }
                assert(out@ + replaced(rest.skip(1), n@, to@) =~= before + (seq![rest[0]] + replaced(
                    rest.skip(1),
                    n@,
                    to@,
                )));
            }
            i += 1;
        }
    }
    assert(s@.skip(s@.len() as int) =~= Seq::empty());
    assert(out@ + Seq::<char>::empty() =~= out@);
    proof {
        if !found {
            assert forall|j: int| !occurs_at(s@, j, n@) by {
                if occurs_at(s@, j, n@) {
                    assert(j < s@.len());
                }
            }
        }
    }
    (out, found)
}

/// A text that is shorter than the needle is not changed.
pub proof fn lemma_replaced_short(s: Seq<char>, needle: Seq<char>, to: Seq<char>)
    requires
        s.len() < needle.len(),
    ensures
        replaced(s, needle, to) == s,
{
}

} // verus!
