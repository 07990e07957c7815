//! Matching texts against a query, without regard to case.
use vstd::prelude::*;

verus! {

/// The lower-case form of a text, as `str::to_lowercase` of the standard
/// library gives it.
pub uninterp spec fn lowercase(s: Seq<char>) -> Seq<char>;

/// The lower-case form of `s`: what `str::to_lowercase` returns. The result
/// depends on the text alone; the standard library documents it by Unicode's
/// `Lowercase` property, which this contract names and does not spell out.
#[verifier::external_body]
fn to_lowercase(s: &str) -> (lower: String)
    ensures
        lower@ == lowercase(s@),
{
    s.to_lowercase()
}

/// Whether `needle` stands in `hay` at place `i`.
pub open spec fn occurs_at(needle: Seq<char>, hay: Seq<char>, i: int) -> bool {
    0 <= i && i + needle.len() <= hay.len() && hay.subrange(i, i + needle.len()) == needle
}

/// Whether `needle` stands somewhere in `hay`.
pub open spec fn occurs_in(needle: Seq<char>, hay: Seq<char>) -> bool {
    exists|i: int| occurs_at(needle, hay, i)
}

/// Whether a note with this title and text matches `query`: the query stands
/// in the title or in the text, all of them taken in lower case. The empty
/// query matches every note.
pub open spec fn note_matches(query: Seq<char>, title: Seq<char>, text: Seq<char>) -> bool {
    occurs_in(lowercase(query), lowercase(title)) || occurs_in(lowercase(query), lowercase(text))
}

/// The characters of `s`.
pub fn chars_of(s: &str) -> (v: Vec<char>)
    ensures
        v@ == s@,
{
    broadcast use vstd::string::axiom_spec_iter;

    let mut v: Vec<char> = Vec::new();
    for c in it: s.chars()
        invariant
            it.seq() == s@,
            v@ == s@.take(it.index() as int),
    {
        assert(s@.take(it.index() + 1) =~= s@.take(it.index() as int).push(c));
        v.push(c);
    }
    assert(s@.take(s@.len() as int) =~= s@);
    v
}

/// Whether `needle` stands in `hay` at place `i`.
fn stands_at(needle: &Vec<char>, hay: &Vec<char>, i: usize) -> (found: bool)
    requires
        i + needle@.len() <= hay@.len(),
    ensures
        found == occurs_at(needle@, hay@, i as int),
{
    let size: usize = hay.len();
    let mut k: usize = 0;
    while k < needle.len()
        invariant
            i + needle@.len() <= hay@.len() == size,
            k <= needle@.len(),
            forall|j: int| 0 <= j < k ==> hay@[i + j] == needle@[j],
        decreases needle@.len() - k,
    {
        if hay[i + k] != needle[k] {
            assert(hay@.subrange(i as int, i + needle@.len())[k as int] != needle@[k as int]);
            return false;
        }
        k += 1;
    }
    assert(hay@.subrange(i as int, i + needle@.len()) =~= needle@);
    true
}

/// Whether `needle` stands somewhere in `hay`.
pub fn contains_chars(hay: &Vec<char>, needle: &Vec<char>) -> (found: bool)
    ensures
        found == occurs_in(needle@, hay@),
{
    if needle.len() > hay.len() {
        return false;
    }
    let last: usize = hay.len() - needle.len();
    let mut i: usize = 0;
    loop
        invariant
            last == hay@.len() - needle@.len(),
            i <= last,
            forall|j: int| 0 <= j < i ==> !occurs_at(needle@, hay@, j),
        decreases last - i,
    {
        if stands_at(needle, hay, i) {
            return true;
        }
        if i == last {
            return false;
        }
        i += 1;
    }
}

/// Whether a note with this title and text matches `query`: see
/// [`note_matches`].
pub fn matches_query(query: &str, title: &str, text: &str) -> (found: bool)
    ensures
        found == note_matches(query@, title@, text@),
{
    let needle = chars_of(to_lowercase(query).as_str());
    matches_lowered(&needle, title, text)
}

/// Whether a note with this title and text matches a query whose lower-case
/// form is `needle`.
pub fn matches_lowered(needle: &Vec<char>, title: &str, text: &str) -> (found: bool)
    ensures
        found == (occurs_in(needle@, lowercase(title@)) || occurs_in(needle@, lowercase(text@))),
{
    let title = chars_of(to_lowercase(title).as_str());
    if contains_chars(&title, needle) {
        return true;
    }
    let text = chars_of(to_lowercase(text).as_str());
    contains_chars(&text, needle)
}

/// The lower-case form of a query, character by character.
pub fn lowered(query: &str) -> (needle: Vec<char>)
    ensures
        needle@ == lowercase(query@),
{
    chars_of(to_lowercase(query).as_str())
}

} // verus!
