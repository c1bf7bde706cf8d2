//! How a file path or URL is tied to a component name: by containment.

use vstd::prelude::*;

verus! {

/// `needle` stands in `hay` starting at position `at`.
pub open spec fn occurs_at(hay: Seq<char>, needle: Seq<char>, at: int) -> bool {
    &&& 0 <= at
    &&& at + needle.len() <= hay.len()
    &&& hay.subrange(at, at + needle.len()) == needle
}

/// `needle` is a contiguous part of `hay`.
pub open spec fn contains_text(hay: Seq<char>, needle: Seq<char>) -> bool {
    exists|at: int| occurs_at(hay, needle, at)
}

/// A file identifier names a component when it is not empty and the
/// component's name is a contiguous part of it.
pub open spec fn names_component(file: Seq<char>, component: Seq<char>) -> bool {
    file.len() > 0 && contains_text(file, component)
}

/// Calls `str::contains` with a string pattern, which tells whether the
/// pattern matches a sub-slice of the string: here, whether `needle` is a
/// contiguous part of `hay`.
#[verifier::external_body]
fn str_contains(hay: &str, needle: &str) -> (found: bool)
    ensures
        found == contains_text(hay@, needle@),
{
    hay.contains(needle)
}

/// Whether `file` names `component`. An empty `file` names nothing.
pub fn file_names_component(file: &str, component: &str) -> (named: bool)
    ensures
        named == names_component(file@, component@),
{
    if file.is_empty() {
        false
    } else {
        str_contains(file, component)
    }
}

/// Every text contains itself.
pub proof fn lemma_contains_itself(text: Seq<char>)
    ensures
        contains_text(text, text),
{
    assert(text.subrange(0, text.len() as int) == text);
    assert(occurs_at(text, text, 0));
}

} // verus!
