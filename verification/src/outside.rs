//! The calls into outside crates, and what the library relies on of each.
use itertools::Itertools;
use vstd::prelude::*;

verus! {

/// The pieces of text that `strings` hold.
pub open spec fn texts(strings: Seq<String>) -> Seq<Seq<char>> {
    strings.map_values(|s: String| s@)
}

/// `items` without the items that occurred before: the first of equal items stays, and what
/// stays keeps its order.
pub open spec fn first_occurrences(items: Seq<Seq<char>>) -> Seq<Seq<char>>
    decreases items.len(),
{
    if items.len() == 0 {
        Seq::empty()
    } else {
        let earlier = first_occurrences(items.drop_last());
        if items.drop_last().contains(items.last()) {
            earlier
        } else {
            earlier.push(items.last())
        }
    }
}

/// Calls `itertools::Itertools::unique` on the items of a vector. Its documentation says that it
/// filters out the items that were produced before, that it is stable, and that of equal items
/// the first is kept; strings are equal if their text is.
#[verifier::external_body]
pub(crate) fn unique(items: Vec<String>) -> (r: Vec<String>)
    ensures
        texts(r@) == first_occurrences(texts(items@)),
{
    items.into_iter().unique().collect()
}

/// The error of `url::Url::parse`, which the library does not look into.
#[verifier::external_type_specification]
#[verifier::external_body]
pub struct ExParseError(url::ParseError);

/// What `url::Url::parse` makes of a piece of text: the serialization of the URL, or nothing if
/// the text is no absolute URL.
pub uninterp spec fn parsed_url(input: Seq<char>) -> Option<Seq<char>>;

/// Calls `url::Url::parse`, and hands out the serialization of the URL. Both whether the text
/// parses and what it is then written as depend on the text alone.
#[verifier::external_body]
pub(crate) fn parse_url(input: &str) -> (r: Result<String, url::ParseError>)
    ensures
        r is Ok <==> parsed_url(input@) is Some,
        r matches Ok(url) ==> parsed_url(input@) == Some(url@),
{
    url::Url::parse(input).map(String::from)
}

/// Whether `c` is a lower-case hexadecimal digit.
pub open spec fn is_hex_digit(c: char) -> bool {
    '0' <= c <= '9' || 'a' <= c <= 'f'
}

/// Whether `id` is a version 7 UUID in its simple form: hexadecimal digits without hyphens, with
/// the version and the variant in their places.
pub open spec fn is_simple_v7(id: Seq<char>) -> bool {
    &&& id.len() == 32
    &&& forall|i: int| 0 <= i < id.len() ==> is_hex_digit(#[trigger] id[i])
    &&& id[12] == '7'
    &&& id[16] == '8' || id[16] == '9' || id[16] == 'a' || id[16] == 'b'
}

/// Where ids come from. It stands for the ids that this process made through it; they are
/// remembered for proofs alone.
pub struct IdSource {
    made: Ghost<Set<Seq<char>>>,
}

impl View for IdSource {
    type V = Set<Seq<char>>;

    closed spec fn view(&self) -> Set<Seq<char>> {
        self.made@
    }
}

impl IdSource {
    /// A source that made no ids yet.
    pub fn new() -> (source: Self)
        ensures
            source@ == Set::<Seq<char>>::empty(),
    {
        IdSource { made: Ghost(Set::empty()) }
    }
}

/// Calls `uuid::Uuid::now_v7` and writes the result in the form of `uuid::Uuid::as_simple`. Its
/// documentation says that all ids that a process makes are ordered by their creation; it counts
/// up within a millisecond and never goes back in time, so an id differs from all earlier ones of
/// the process. Beyond that the id depends on the clock and on chance, and only its form is
/// stated. It takes a system clock that is not before 1970, and a source of randomness.
#[verifier::external_body]
pub(crate) fn now_v7_simple(source: &mut IdSource) -> (id: String)
    ensures
        is_simple_v7(id@),
        !old(source)@.contains(id@),
        final(source)@ == old(source)@.insert(id@),
{
    uuid::Uuid::now_v7().as_simple().to_string()
}

} // verus!
