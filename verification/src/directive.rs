//! Two marks on a response that the library looks for in its own right.
//!
//! A response with the directive `no-store` in a `Cache-Control` header is
//! never written to the store, and one with the item `*` in a `Vary`
//! header never answers another request, whatever else is found about
//! them. A header value is read as a list of items parted by commas, each
//! without the blanks around it; a directive is named by what stands
//! before its `=`.

use crate::message::{headers_view, CachedResponse, Header, HeaderView, ResponseView};
use crate::text::to_chars;
use vstd::prelude::*;

verus! {

/// The lower-case form of an ASCII letter; any other byte as it is.
pub open spec fn lower_byte(b: u8) -> u8 {
    if 65 <= b <= 90 {
        (b + 32) as u8
    } else {
        b
    }
}

/// The lower-case form of an ASCII letter; any other character as it is.
pub open spec fn lower(c: char) -> char {
    if 'A' <= c && c <= 'Z' {
        ((c as u8) + 32) as char
    } else {
        c
    }
}

/// The two texts are equal but for the case of their ASCII letters.
pub open spec fn same_name(a: Seq<char>, b: Seq<char>) -> bool {
    a.len() == b.len() && forall|i: int| 0 <= i < a.len() ==> lower(a[i]) == lower(b[i])
}

/// The bytes of the word `no-store`.
pub open spec fn no_store_word() -> Seq<u8> {
    seq![110u8, 111u8, 45u8, 115u8, 116u8, 111u8, 114u8, 101u8]
}

/// A space or a tab: what may stand around an item of a header value.
pub open spec fn is_blank(b: u8) -> bool {
    b == 32 || b == 9
}

/// Position of the first `byte` in `value[from..to]`, or `to` where there
/// is none.
pub open spec fn first_of(value: Seq<u8>, from: int, to: int, byte: u8) -> int
    decreases to - from,
{
    if from >= to {
        to
    } else if value[from] == byte {
        from
    } else {
        first_of(value, from + 1, to, byte)
    }
}

/// Position of the first byte of `value[from..to]` that is no blank, or
/// `to` where there is none.
pub open spec fn after_blanks(value: Seq<u8>, from: int, to: int) -> int
    decreases to - from,
{
    if from >= to {
        to
    } else if !is_blank(value[from]) {
        from
    } else {
        after_blanks(value, from + 1, to)
    }
}

/// Position behind the last byte of `value[from..to]` that is no blank, or
/// `from` where there is none.
pub open spec fn before_blanks(value: Seq<u8>, from: int, to: int) -> int
    decreases to - from,
{
    if to <= from {
        from
    } else if !is_blank(value[to - 1]) {
        to
    } else {
        before_blanks(value, from, to - 1)
    }
}

/// `value[from..to]` is `word`, but for the case of ASCII letters.
pub open spec fn reads_as(value: Seq<u8>, from: int, to: int, word: Seq<u8>) -> bool {
    &&& to - from == word.len()
    &&& forall|j: int| 0 <= j < word.len() ==> lower_byte(value[from + j]) == lower_byte(word[j])
}

/// `value[from..to]`, without the blanks around it, is `word`.
pub open spec fn item_is(value: Seq<u8>, from: int, to: int, word: Seq<u8>) -> bool {
    let start = after_blanks(value, from, to);
    reads_as(value, start, before_blanks(value, start, to), word)
}

/// The item `value[from..to]` has the name `word`: what stands before its
/// first `=`, or all of it where it has none, is `word` without the blanks
/// around it.
pub open spec fn item_names(value: Seq<u8>, from: int, to: int, word: Seq<u8>) -> bool {
    item_is(value, from, first_of(value, from, to, 61), word)
}

/// The item `value[from..to]` fits `word`: by its name where `named`, as a
/// whole otherwise.
pub open spec fn item_fits(value: Seq<u8>, from: int, to: int, word: Seq<u8>, named: bool) -> bool {
    if named {
        item_names(value, from, to, word)
    } else {
        item_is(value, from, to, word)
    }
}

/// One of the items of `value` that start at `from` or later fits `word`.
/// The items of a value are what its commas part.
pub open spec fn some_item(value: Seq<u8>, from: int, word: Seq<u8>, named: bool) -> bool
    decreases value.len() - from,
{
    if from < 0 || from > value.len() {
        false
    } else {
        let end = first_of(value, from, value.len() as int, 44);
        if item_fits(value, from, end, word, named) {
            true
        } else if from <= end && end < value.len() {
            some_item(value, end + 1, word, named)
        } else {
            false
        }
    }
}

/// The header has the name `name`, in any case, and one of the items of
/// its value fits `word`.
pub open spec fn header_has_item(
    h: HeaderView,
    name: Seq<char>,
    word: Seq<u8>,
    named: bool,
) -> bool {
    same_name(h.name, name) && some_item(h.value, 0, word, named)
}

/// One of the headers has the name `name` and an item that fits `word`.
pub open spec fn some_header_has_item(
    headers: Seq<HeaderView>,
    name: Seq<char>,
    word: Seq<u8>,
    named: bool,
) -> bool {
    exists|k: int|
        0 <= k < headers.len() && header_has_item(#[trigger] headers[k], name, word, named)
}

/// The response carries `Cache-Control: no-store`: one of the directives
/// of a `Cache-Control` header has the name `no-store`, in any case.
pub open spec fn carries_no_store(response: ResponseView) -> bool {
    some_header_has_item(response.headers, "cache-control"@, no_store_word(), true)
}

/// The response carries `Vary: *`: one of the items of a `Vary` header is
/// the asterisk. Such a response depends on more of the request than its
/// headers tell.
pub open spec fn varies_on_everything(response: ResponseView) -> bool {
    some_header_has_item(response.headers, "vary"@, seq![42u8], false)
}

/// The lower-case form of an ASCII letter; any other byte as it is.
pub fn to_lower_byte(b: u8) -> (r: u8)
    ensures
        r == lower_byte(b),
{
    if 65 <= b && b <= 90 {
        b + 32
    } else {
        b
    }
}

/// The lower-case form of an ASCII letter; any other character as it is.
pub fn to_lower(c: char) -> (r: char)
    ensures
        r == lower(c),
{
    if 'A' <= c && c <= 'Z' {
        ((c as u8) + 32) as char
    } else {
        c
    }
}

/// Tells whether two names are equal but for the case of ASCII letters.
pub fn names_match(a: &str, b: &str) -> (r: bool)
    ensures
        r == same_name(a@, b@),
{
    let left = to_chars(a);
    let right = to_chars(b);
    if left.len() != right.len() {
        return false;
    }
    let mut i: usize = 0;
    while i < left.len()
        invariant
            i <= left.len(),
            left.len() == right.len(),
            left@ == a@,
            right@ == b@,
            forall|j: int| 0 <= j < i ==> lower(a@[j]) == lower(b@[j]),
        decreases left.len() - i,
    {
        if to_lower(left[i]) != to_lower(right[i]) {
            return false;
        }
        i += 1;
    }
    true
}

/// Finds the first `byte` in `value[from..to]`.
fn find_byte(value: &[u8], from: usize, to: usize, byte: u8) -> (r: usize)
    requires
        from <= to <= value.len(),
    ensures
        r == first_of(value@, from as int, to as int, byte),
        from <= r <= to,
{
    let mut k: usize = from;
    while k < to && value[k] != byte
        invariant
            from <= k <= to <= value.len(),
            first_of(value@, from as int, to as int, byte) == first_of(
                value@,
                k as int,
                to as int,
                byte,
            ),
        decreases to - k,
    {
        k += 1;
    }
    k
}

/// Finds the first byte of `value[from..to]` that is no blank.
fn skip_blanks(value: &[u8], from: usize, to: usize) -> (r: usize)
    requires
        from <= to <= value.len(),
    ensures
        r == after_blanks(value@, from as int, to as int),
        from <= r <= to,
{
    let mut k: usize = from;
    while k < to && (value[k] == 32 || value[k] == 9)
        invariant
            from <= k <= to <= value.len(),
            after_blanks(value@, from as int, to as int) == after_blanks(
                value@,
                k as int,
                to as int,
            ),
        decreases to - k,
    {
        k += 1;
    }
    k
}

/// Finds the end of `value[from..to]` without the blanks at its end.
fn drop_blanks(value: &[u8], from: usize, to: usize) -> (r: usize)
    requires
        from <= to <= value.len(),
    ensures
        r == before_blanks(value@, from as int, to as int),
        from <= r <= to,
{
    let mut k: usize = to;
    while k > from && (value[k - 1] == 32 || value[k - 1] == 9)
        invariant
            from <= k <= to <= value.len(),
            before_blanks(value@, from as int, to as int) == before_blanks(
                value@,
                from as int,
                k as int,
            ),
        decreases k - from,
    {
        k -= 1;
    }
    k
}

/// Tells whether `value[from..to]` is `word`, but for the case of ASCII
/// letters.
fn reads_word(value: &[u8], from: usize, to: usize, word: &[u8]) -> (r: bool)
    requires
        from <= to <= value.len(),
    ensures
        r == reads_as(value@, from as int, to as int, word@),
{
    if to - from != word.len() {
        return false;
    }
    let mut j: usize = 0;
    while j < word.len()
        invariant
            j <= word.len(),
            from <= to <= value.len(),
            to - from == word.len(),
            forall|k: int| 0 <= k < j ==> lower_byte(value@[from + k]) == lower_byte(word@[k]),
        decreases word.len() - j,
    {
        if to_lower_byte(value[from + j]) != to_lower_byte(word[j]) {
            return false;
        }
        j += 1;
    }
    true
}

/// Tells whether `value[from..to]`, without the blanks around it, is
/// `word`.
fn item_reads(value: &[u8], from: usize, to: usize, word: &[u8]) -> (r: bool)
    requires
        from <= to <= value.len(),
    ensures
        r == item_is(value@, from as int, to as int, word@),
{
    let start = skip_blanks(value, from, to);
    let end = drop_blanks(value, start, to);
    reads_word(value, start, end, word)
}

/// Tells whether one of the items of `value` fits `word`: by the name
/// before its `=` where `named`, as a whole otherwise.
pub fn value_has_item(value: &[u8], word: &[u8], named: bool) -> (r: bool)
    ensures
        r == some_item(value@, 0, word@, named),
{
    let mut from: usize = 0;
    loop
        invariant
            from <= value.len(),
            some_item(value@, 0, word@, named) == some_item(value@, from as int, word@, named),
        decreases value.len() - from,
    {
        let end = find_byte(value, from, value.len(), 44);
        let fits = if named {
            let name_end = find_byte(value, from, end, 61);
            item_reads(value, from, name_end, word)
        } else {
            item_reads(value, from, end, word)
        };
        if fits {
            return true;
        }
        if end >= value.len() {
            return false;
        }
        from = end + 1;
    }
}

/// Tells whether one of the headers has the name `name`, in any case, and
/// an item that fits `word`.
pub fn headers_have_item(headers: &Vec<Header>, name: &str, word: &[u8], named: bool) -> (r: bool)
    ensures
        r == some_header_has_item(headers_view(headers@), name@, word@, named),
{
    let ghost all = headers_view(headers@);
    let mut k: usize = 0;
    while k < headers.len()
        invariant
            k <= headers.len(),
            all == headers_view(headers@),
            forall|i: int| 0 <= i < k ==> !header_has_item(#[trigger] all[i], name@, word@, named),
        decreases headers.len() - k,
    {
        assert(all[k as int] == headers@[k as int]@);
        if names_match(headers[k].name.as_str(), name) && value_has_item(
            headers[k].value.as_slice(),
            word,
            named,
        ) {
            return true;
        }
        k += 1;
    }
    false
}

/// Tells whether the response carries `Cache-Control: no-store`.
pub fn forbids_storing(response: &CachedResponse) -> (r: bool)
    ensures
        r == carries_no_store(response@),
{
    let word: [u8; 8] = [110, 111, 45, 115, 116, 111, 114, 101];
    assert(word@ =~= no_store_word());
    headers_have_item(&response.headers, "cache-control", word.as_slice(), true)
}

/// Tells whether the response carries `Vary: *`.
pub fn forbids_reuse(response: &CachedResponse) -> (r: bool)
    ensures
        r == varies_on_everything(response@),
{
    let word: [u8; 1] = [42];
    assert(word@ =~= seq![42u8]);
    headers_have_item(&response.headers, "vary", word.as_slice(), false)
}

} // verus!
