//! Text helpers: comparison, search, joining, and insertion-ordered sets of names.

use vstd::prelude::*;
use vstd::string::{StrSliceExecFns, StringExecFns};

verus! {

/// The character sequences of a list of strings.
pub open spec fn texts(list: Seq<String>) -> Seq<Seq<char>> {
    list.map_values(|s: String| s@)
}

/// Whether an optional string is present and spells `wanted`.
pub open spec fn text_is(text: Option<String>, wanted: Seq<char>) -> bool {
    text matches Some(t) && t@ == wanted
}

/// Whether `needle` occurs in `haystack` as a contiguous run of characters.
pub open spec fn occurs_in(needle: Seq<char>, haystack: Seq<char>) -> bool {
    exists|i: int|
        0 <= i && i + needle.len() <= haystack.len() && #[trigger] haystack.subrange(
            i,
            i + needle.len(),
        ) == needle
}

/// The parts in order, with `separator` between neighbours.
pub open spec fn joined(parts: Seq<Seq<char>>, separator: Seq<char>) -> Seq<char>
    decreases parts.len(),
{
    if parts.len() == 0 {
        Seq::empty()
    } else if parts.len() == 1 {
        parts[0]
    } else {
        joined(parts.drop_last(), separator) + separator + parts.last()
    }
}

/// The elements of `list` without repetitions, each at the place of its first occurrence.
pub open spec fn distinct<A>(list: Seq<A>) -> Seq<A> {
    with_elements(Seq::empty(), list)
}

/// `list` extended by each of the `elements` that is not yet there.
pub open spec fn with_elements<A>(list: Seq<A>, elements: Seq<A>) -> Seq<A>
    decreases elements.len(),
{
    if elements.len() == 0 {
        list
    } else {
        with_element(with_elements(list, elements.drop_last()), elements.last())
    }
}

/// `list` extended by `element` unless it already holds it.
pub open spec fn with_element<A>(list: Seq<A>, element: A) -> Seq<A> {
    if list.contains(element) {
        list
    } else {
        list.push(element)
    }
}

/// Extending a list in two steps.
pub proof fn lemma_with_elements_add<A>(list: Seq<A>, first: Seq<A>, second: Seq<A>)
    ensures
        with_elements(list, first + second) == with_elements(with_elements(list, first), second),
    decreases second.len(),
{
    if second.len() == 0 {
        assert(first + second =~= first);
    } else {
        assert((first + second).drop_last() =~= first + second.drop_last());
        lemma_with_elements_add(list, first, second.drop_last());
    }
}

/// Extending a list by one element after others.
pub proof fn lemma_with_elements_push<A>(list: Seq<A>, elements: Seq<A>, element: A)
    ensures
        with_elements(list, elements.push(element)) == with_element(
            with_elements(list, elements),
            element,
        ),
{
    assert(elements.push(element).drop_last() =~= elements);
}

/// An extended list holds what it held before and the new elements, and nothing twice that was
/// not there twice before.
pub proof fn lemma_with_elements<A>(list: Seq<A>, elements: Seq<A>)
    ensures
        forall|a: A|
            #[trigger] with_elements(list, elements).contains(a) <==> list.contains(a)
                || elements.contains(a),
        list.no_duplicates() ==> with_elements(list, elements).no_duplicates(),
    decreases elements.len(),
{
    if elements.len() > 0 {
        let front = elements.drop_last();
        let last = elements.last();
        let before = with_elements(list, front);
        lemma_with_elements(list, front);
        assert forall|a: A|
            #[trigger] with_elements(list, elements).contains(a) <==> list.contains(a)
                || elements.contains(a) by {
            assert(elements =~= front.push(last));
            lemma_push_contains(front, last, a);
            lemma_push_contains(before, last, a);
        }
    }
}

proof fn lemma_push_contains<A>(list: Seq<A>, element: A, a: A)
    ensures
        list.push(element).contains(a) <==> list.contains(a) || a == element,
{
    let pushed = list.push(element);
    if list.contains(a) {
        let k = choose|k: int| 0 <= k < list.len() && list[k] == a;
        assert(pushed[k] == a);
    }
    if a == element {
        assert(pushed[list.len() as int] == a);
    }
}

/// Compares two strings by their characters.
pub fn same_text(a: &str, b: &str) -> (same: bool)
    ensures
        same == (a@ == b@),
{
    proof {
        vstd::utf8::encode_utf8_decode_utf8(a@);
        vstd::utf8::encode_utf8_decode_utf8(b@);
    }
    let x: &[u8] = a.as_bytes();
    let y: &[u8] = b.as_bytes();
    if x.len() != y.len() {
        return false;
    }
    let mut i: usize = 0;
    while i < x.len()
        invariant
            i <= x.len(),
            x.len() == y.len(),
            x@ == vstd::utf8::encode_utf8(a@),
            y@ == vstd::utf8::encode_utf8(b@),
            forall|j: int| 0 <= j < i ==> x@[j] == y@[j],
        decreases x.len() - i,
    {
        if x[i] != y[i] {
            return false;
        }
        i += 1;
    }
    assert(x@ =~= y@);
    true
}

/// Whether the optional string is present and spells `wanted`.
pub fn is_text(text: &Option<String>, wanted: &str) -> (same: bool)
    ensures
        same == text_is(*text, wanted@),
{
    match text {
        Some(t) => same_text(t.as_str(), wanted),
        None => false,
    }
}

/// Whether `haystack` contains `needle`.
pub fn contains_text(haystack: &str, needle: &str) -> (found: bool)
    ensures
        found == occurs_in(needle@, haystack@),
{
    let n: usize = haystack.unicode_len();
    let m: usize = needle.unicode_len();
    if m > n {
        return false;
    }
    let mut i: usize = 0;
    while i <= n - m
        invariant
            i <= n - m + 1,
            m <= n,
            n == haystack@.len(),
            m == needle@.len(),
            forall|j: int| 0 <= j < i ==> #[trigger] haystack@.subrange(j, j + m) != needle@,
        decreases n - i,
    {
        let window: &str = haystack.substring_char(i, i + m);
        if same_text(window, needle) {
            return true;
        }
        if i == n - m {
            return false;
        }
        i += 1;
    }
    false
}

/// Whether `list` holds a string that spells `wanted`.
pub fn contains_string(list: &Vec<String>, wanted: &str) -> (found: bool)
    ensures
        found == texts(list@).contains(wanted@),
{
    let mut i: usize = 0;
    while i < list.len()
        invariant
            i <= list.len(),
            forall|j: int| 0 <= j < i ==> list@[j]@ != wanted@,
        decreases list.len() - i,
    {
        if same_text(list[i].as_str(), wanted) {
            assert(texts(list@)[i as int] == wanted@);
            return true;
        }
        i += 1;
    }
    assert forall|j: int| 0 <= j < list.len() implies texts(list@)[j] != wanted@ by {
        assert(list@[j]@ != wanted@);
    }
    false
}

/// Adds `text` at the end of `list` unless an equal string is already there.
pub fn insert_string(list: &mut Vec<String>, text: &str)
    ensures
        texts(final(list)@) == with_element(texts(old(list)@), text@),
{
    if !contains_string(list, text) {
        let ghost before = list@;
        list.push(text.to_owned());
        assert(texts(list@) =~= texts(before).push(text@));
    }
}

/// Joins the strings of `list` with `separator`.
pub fn join(list: &Vec<String>, separator: &str) -> (text: String)
    ensures
        text@ == joined(texts(list@), separator@),
{
    let mut text: String = String::new();
    let mut i: usize = 0;
    while i < list.len()
        invariant
            i <= list.len(),
            text@ == joined(texts(list@).take(i as int), separator@),
        decreases list.len() - i,
    {
        if i > 0 {
            text.append(separator);
        }
        text.append(list[i].as_str());
        proof {
            let all = texts(list@);
            assert(all.take(i + 1).drop_last() =~= all.take(i as int));
        }
        i += 1;
    }
    assert(texts(list@).take(i as int) =~= texts(list@));
    text
}

} // verus!
