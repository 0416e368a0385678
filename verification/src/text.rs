//! Texts and lists of texts, as the other modules compare and build them.

use vstd::prelude::*;
use vstd::string::*;

verus! {

/// A list of texts, each as its characters.
pub open spec fn strings_view(texts: Seq<String>) -> Seq<Seq<char>> {
    texts.map_values(|text: String| text@)
}

/// A text that may be absent, as its characters.
pub open spec fn optional_view(text: Option<String>) -> Option<Seq<char>> {
    match text {
        Some(t) => Some(t@),
        None => None,
    }
}

/// A list of texts that may be absent, each text as its characters.
pub open spec fn optional_strings_view(texts: Option<Vec<String>>) -> Option<Seq<Seq<char>>> {
    match texts {
        Some(list) => Some(strings_view(list@)),
        None => None,
    }
}

/// Two texts joined by a separator.
pub open spec fn joined(left: Seq<char>, separator: Seq<char>, right: Seq<char>) -> Seq<char> {
    left + separator + right
}

/// Writes two texts joined by a separator.
pub fn join(left: &str, separator: &str, right: &str) -> (r: String)
    ensures
        r@ == joined(left@, separator@, right@),
{
    let mut text = String::from_str(left);
    text.append(separator);
    text.append(right);
    text
}

/// Whether two texts hold the same characters.
pub fn same_text(left: &str, right: &str) -> (r: bool)
    ensures
        r == (left@ == right@),
{
    String::from_str(left) == String::from_str(right)
}

/// Whether `wanted` is one of `texts`.
pub fn contains_text(texts: &Vec<String>, wanted: &str) -> (r: bool)
    ensures
        r == strings_view(texts@).contains(wanted@),
{
    let mut i: usize = 0;
    while i < texts.len()
        invariant
            i <= texts@.len(),
            forall|k: int| 0 <= k < i ==> strings_view(texts@)[k] != wanted@,
        decreases texts@.len() - i,
    {
        if same_text(texts[i].as_str(), wanted) {
            assert(strings_view(texts@)[i as int] == wanted@);
            return true;
        }
        i = i + 1;
    }
    false
}

/// Whether no text stands twice in `texts`.
pub fn all_distinct(texts: &Vec<String>) -> (r: bool)
    ensures
        r == strings_view(texts@).no_duplicates(),
{
    let ghost views = strings_view(texts@);
    let mut i: usize = 0;
    while i < texts.len()
        invariant
            i <= texts@.len(),
            views == strings_view(texts@),
            forall|a: int, b: int| 0 <= a < i && 0 <= b < views.len() && a != b ==> views[a] != views[b],
        decreases texts@.len() - i,
    {
        let mut j: usize = i + 1;
        while j < texts.len()
            invariant
                i < j <= texts@.len(),
                views == strings_view(texts@),
                forall|b: int| i < b < j ==> views[i as int] != views[b],
            decreases texts@.len() - j,
        {
            if same_text(texts[i].as_str(), texts[j].as_str()) {
                assert(views[i as int] == views[j as int]);
                return false;
            }
            j = j + 1;
        }
        i = i + 1;
    }
    true
}

/// A copy of a list of texts.
pub fn copy_texts(texts: &Vec<String>) -> (r: Vec<String>)
    ensures
        strings_view(r@) == strings_view(texts@),
{
    let mut copy: Vec<String> = Vec::new();
    let mut i: usize = 0;
    while i < texts.len()
        invariant
            i <= texts@.len(),
            copy@.len() == i,
            forall|k: int| 0 <= k < i ==> copy@[k]@ == texts@[k]@,
        decreases texts@.len() - i,
    {
        copy.push(texts[i].clone());
        i = i + 1;
    }
    assert(strings_view(copy@) =~= strings_view(texts@));
    copy
}

/// A copy of a list of texts that may be absent.
pub fn copy_optional_texts(texts: &Option<Vec<String>>) -> (r: Option<Vec<String>>)
    ensures
        optional_strings_view(r) == optional_strings_view(*texts),
{
    match texts {
        Some(list) => Some(copy_texts(list)),
        None => None,
    }
}

} // verus!
