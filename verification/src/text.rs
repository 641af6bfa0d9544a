//! Characters and strings: what this crate takes from the standard library
//! without proof, conversions between strings and vectors of characters,
//! lists of texts, and the order in which names are sorted.

use vstd::prelude::*;
use vstd::relations::{sorted_by, total_ordering};
use vstd::seq_lib::lemma_sorted_unique;
use vstd::string::StringExecFns;

verus! {

/// Whether `c` is whitespace: one of the code points that bear the Unicode
/// property `White_Space`. These are the tab, the line feed, the vertical
/// tab, the form feed and the carriage return, the space, the next-line
/// character, the no-break space, the Ogham space mark, the spaces of fixed
/// width from the en quad to the hair space, the line and the paragraph
/// separator, the narrow no-break space, the medium mathematical space and
/// the ideographic space.
pub open spec fn is_space(c: char) -> bool {
    ||| '\u{9}' <= c && c <= '\u{d}'
    ||| c == ' '
    ||| c == '\u{85}'
    ||| c == '\u{a0}'
    ||| c == '\u{1680}'
    ||| '\u{2000}' <= c && c <= '\u{200a}'
    ||| c == '\u{2028}'
    ||| c == '\u{2029}'
    ||| c == '\u{202f}'
    ||| c == '\u{205f}'
    ||| c == '\u{3000}'
}

/// `char::is_whitespace` tells whether a character bears the Unicode
/// property `White_Space`, which is the list that `is_space` holds.
pub assume_specification[ char::is_whitespace ](c: char) -> (b: bool)
    ensures
        b == is_space(c),
;

/// For each character of `s`, whether it is whitespace.
pub open spec fn space_marks(s: Seq<char>) -> Seq<bool> {
    Seq::new(s.len(), |i: int| is_space(s[i]))
}

/// Whether `marks` holds a mark at position `i`. Positions that `marks`
/// does not reach bear none.
pub open spec fn marked(marks: Seq<bool>, i: int) -> bool {
    0 <= i < marks.len() && marks[i]
}

/// The first position at or after `i` and below `len` that bears no mark
/// (`len` if there is none).
pub open spec fn skip_marked(len: int, marks: Seq<bool>, i: int) -> int
    decreases len - i,
{
    if 0 <= i < len && marked(marks, i) {
        skip_marked(len, marks, i + 1)
    } else {
        i
    }
}

/// The first position at or after `i` and below `len` that bears a mark
/// (`len` if there is none).
pub open spec fn next_marked(len: int, marks: Seq<bool>, i: int) -> int
    decreases len - i,
{
    if 0 <= i < len && !marked(marks, i) {
        next_marked(len, marks, i + 1)
    } else {
        i
    }
}

/// Skipping marked positions moves forward and stays within the text.
pub proof fn lemma_skip_marked_bounds(len: int, marks: Seq<bool>, i: int)
    requires
        0 <= i <= len,
    ensures
        i <= skip_marked(len, marks, i) <= len,
    decreases len - i,
{
    if i < len && marked(marks, i) {
        lemma_skip_marked_bounds(len, marks, i + 1);
    }
}

/// The next marked position lies at or after the start, within the text.
pub proof fn lemma_next_marked_bounds(len: int, marks: Seq<bool>, i: int)
    requires
        0 <= i <= len,
    ensures
        i <= next_marked(len, marks, i) <= len,
    decreases len - i,
{
    if i < len && !marked(marks, i) {
        lemma_next_marked_bounds(len, marks, i + 1);
    }
}

/// The uppercase mapping of `c` in the Unicode tables.
pub uninterp spec fn upper_form(c: char) -> Seq<char>;

/// `char::to_uppercase` yields the uppercase mapping of `c`, which
/// `upper_form` names; the characters are collected in order. The mapping
/// holds one or more characters.
#[verifier::external_body]
pub(crate) fn uppercase_of(c: char) -> (upper: Vec<char>)
    ensures
        upper@ == upper_form(c),
        upper@.len() >= 1,
{
    c.to_uppercase().collect()
}

/// What `c` is in ASCII lower case: `A` to `Z` become `a` to `z`, every
/// other character stays.
pub open spec fn ascii_lower(c: char) -> char {
    if 'A' <= c && c <= 'Z' {
        ((c as u8) + 32) as char
    } else {
        c
    }
}

/// `s` with each character in ASCII lower case.
pub open spec fn lowercased(s: Seq<char>) -> Seq<char> {
    Seq::new(s.len(), |i: int| ascii_lower(s[i]))
}

/// `str::to_ascii_lowercase` maps `A` to `Z` to `a` to `z` and copies every
/// other character.
pub assume_specification[ str::to_ascii_lowercase ](s: &str) -> (lower: String)
    ensures
        lower@ == lowercased(s@),
;

/// `String::push` appends one character to the end of the string.
pub assume_specification[ String::push ](s: &mut String, ch: char)
    ensures
        final(s)@ == old(s)@.push(ch),
;

/// `PartialEq::eq` of `str`, the `==` of string slices: two slices are
/// equal where they hold the same characters.
#[verifier::external_body]
pub(crate) fn same_text(a: &str, b: &str) -> (same: bool)
    ensures
        same == (a@ == b@),
{
    a == b
}

/// The characters of `s`, in order.
pub fn chars_of(s: &str) -> (chars: Vec<char>)
    ensures
        chars@ == s@,
{
    broadcast use vstd::string::axiom_spec_iter;

    let mut chars: Vec<char> = Vec::new();
    let walk = s.chars();
    for c in it: walk
        invariant
            it.seq() == s@,
            chars@ == s@.take(it.index()),
    {
        chars.push(c);
    }
    chars
}

/// Marks the whitespace among `chars`.
pub fn mark_spaces(chars: &Vec<char>) -> (marks: Vec<bool>)
    ensures
        marks@ == space_marks(chars@),
{
    let mut marks: Vec<bool> = Vec::new();
    let mut i: usize = 0;
    while i < chars.len()
        invariant
            i <= chars.len(),
            marks@ == space_marks(chars@).take(i as int),
        decreases chars.len() - i,
    {
        marks.push(chars[i].is_whitespace());
        i += 1;
    }
    marks
}

/// Whether `marks` holds a mark at position `i`.
pub fn is_marked(marks: &Vec<bool>, i: usize) -> (found: bool)
    ensures
        found == marked(marks@, i as int),
{
    i < marks.len() && marks[i]
}

/// The characters of `chars` from `from` up to `to`.
pub(crate) fn copy_range(chars: &Vec<char>, from: usize, to: usize) -> (part: Vec<char>)
    requires
        from <= to <= chars.len(),
    ensures
        part@ == chars@.subrange(from as int, to as int),
{
    let mut part: Vec<char> = Vec::new();
    let mut i: usize = from;
    while i < to
        invariant
            from <= i <= to <= chars.len(),
            part@ == chars@.subrange(from as int, i as int),
        decreases to - i,
    {
        part.push(chars[i]);
        i += 1;
    }
    part
}

/// The string made of `chars`, in order.
pub fn string_of(chars: &Vec<char>) -> (s: String)
    ensures
        s@ == chars@,
{
    let mut s = String::new();
    let mut i: usize = 0;
    while i < chars.len()
        invariant
            i <= chars.len(),
            s@ == chars@.take(i as int),
        decreases chars.len() - i,
    {
        s.push(chars[i]);
        i += 1;
    }
    s
}

/// What each borrowed text of `list` holds.
pub open spec fn texts(list: Seq<&str>) -> Seq<Seq<char>> {
    Seq::new(list.len(), |i: int| list[i]@)
}

/// What each string of `list` holds.
pub open spec fn contents(list: Seq<String>) -> Seq<Seq<char>> {
    Seq::new(list.len(), |i: int| list[i]@)
}

/// The texts of `parts` with `sep` between neighbours.
pub open spec fn joined_with(parts: Seq<Seq<char>>, sep: Seq<char>) -> Seq<char>
    decreases parts.len(),
{
    if parts.len() == 0 {
        Seq::empty()
    } else if parts.len() == 1 {
        parts[0]
    } else {
        joined_with(parts.drop_last(), sep) + sep + parts.last()
    }
}

/// Joining one more part adds the separator and the part, but for the first.
pub proof fn lemma_joined_with_push(parts: Seq<Seq<char>>, sep: Seq<char>, part: Seq<char>)
    ensures
        joined_with(parts.push(part), sep) == if parts.len() == 0 {
            part
        } else {
            joined_with(parts, sep) + sep + part
        },
{
    assert(parts.push(part).drop_last() =~= parts);
}

/// Whether one of the texts in `list` is `wanted`.
pub fn holds_text(list: &Vec<&'static str>, wanted: &str) -> (found: bool)
    ensures
        found == texts(list@).contains(wanted@),
{
    let mut i: usize = 0;
    while i < list.len()
        invariant
            i <= list.len(),
            forall|k: int| 0 <= k < i ==> texts(list@)[k] != wanted@,
        decreases list.len() - i,
    {
        if same_text(list[i], wanted) {
            assert(texts(list@)[i as int] == wanted@);
            return true;
        }
        i += 1;
    }
    false
}

/// The texts of `list` with `sep` between neighbours.
pub fn join_texts(list: &Vec<&'static str>, sep: &str) -> (out: String)
    ensures
        out@ == joined_with(texts(list@), sep@),
{
    let mut out = String::new();
    let mut i: usize = 0;
    while i < list.len()
        invariant
            i <= list.len(),
            out@ == joined_with(texts(list@).take(i as int), sep@),
        decreases list.len() - i,
    {
        proof {
            lemma_joined_with_push(texts(list@).take(i as int), sep@, list@[i as int]@);
            assert(texts(list@).take(i as int).push(list@[i as int]@) =~= texts(list@).take(
                i + 1,
            ));
        }
        if i > 0 {
            out.append(sep);
        }
        out.append(list[i]);
        i += 1;
    }
    assert(texts(list@).take(list.len() as int) =~= texts(list@));
    out
}

/// The order of strings: `a` equals `b` or comes before it. The strings are
/// compared character by character, by code point, and a string comes after
/// each of its proper prefixes.
pub open spec fn text_le(a: Seq<char>, b: Seq<char>) -> bool
    decreases a.len(),
{
    if a.len() == 0 {
        true
    } else if b.len() == 0 {
        false
    } else if a[0] != b[0] {
        a[0] < b[0]
    } else {
        text_le(a.skip(1), b.skip(1))
    }
}

/// The order of strings as a relation.
pub open spec fn text_order() -> spec_fn(Seq<char>, Seq<char>) -> bool {
    |a: Seq<char>, b: Seq<char>| text_le(a, b)
}

/// The texts of `list` in ascending order.
pub open spec fn sorted_texts(list: Seq<Seq<char>>) -> Seq<Seq<char>> {
    list.sort_by(text_order())
}

proof fn lemma_text_le_reflexive(a: Seq<char>)
    ensures
        text_le(a, a),
    decreases a.len(),
{
    if a.len() > 0 {
        lemma_text_le_reflexive(a.skip(1));
    }
}

proof fn lemma_text_le_antisymmetric(a: Seq<char>, b: Seq<char>)
    requires
        text_le(a, b),
        text_le(b, a),
    ensures
        a == b,
    decreases a.len(),
{
    if a.len() == 0 || b.len() == 0 {
        assert(a =~= b);
    } else {
        lemma_text_le_antisymmetric(a.skip(1), b.skip(1));
        assert(a =~= seq![a[0]] + a.skip(1));
        assert(b =~= seq![b[0]] + b.skip(1));
    }
}

proof fn lemma_text_le_transitive(a: Seq<char>, b: Seq<char>, c: Seq<char>)
    requires
        text_le(a, b),
        text_le(b, c),
    ensures
        text_le(a, c),
    decreases a.len(),
{
    if a.len() > 0 && b.len() > 0 && c.len() > 0 && a[0] == b[0] && b[0] == c[0] {
        lemma_text_le_transitive(a.skip(1), b.skip(1), c.skip(1));
    }
}

proof fn lemma_text_le_total(a: Seq<char>, b: Seq<char>)
    ensures
        text_le(a, b) || text_le(b, a),
    decreases a.len(),
{
    if a.len() > 0 && b.len() > 0 {
        if a[0] == b[0] {
            lemma_text_le_total(a.skip(1), b.skip(1));
        } else {
            assert(a[0] < b[0] || b[0] < a[0]);
        }
    } else if a.len() > 0 {
        assert(text_le(b, a));
    }
}

/// The order of strings is a total order.
pub proof fn lemma_text_order_total()
    ensures
        total_ordering(text_order()),
{
    let r = text_order();
    assert forall|x: Seq<char>| #[trigger] r(x, x) by {
        lemma_text_le_reflexive(x);
    }
    assert forall|x: Seq<char>, y: Seq<char>| #[trigger] r(x, y) && #[trigger] r(y, x) implies x
        == y by {
        lemma_text_le_antisymmetric(x, y);
    }
    assert forall|x: Seq<char>, y: Seq<char>, z: Seq<char>| #[trigger]
        r(x, y) && #[trigger] r(y, z) implies r(x, z) by {
        lemma_text_le_transitive(x, y, z);
    }
    assert forall|x: Seq<char>, y: Seq<char>| #[trigger] r(x, y) || #[trigger] r(y, x) by {
        lemma_text_le_total(x, y);
    }
}

/// The sorted list holds what the list held, each text as often, and no
/// text of it stands before one that comes earlier in the order.
pub proof fn lemma_sorted_texts(list: Seq<Seq<char>>)
    ensures
        sorted_texts(list).to_multiset() == list.to_multiset(),
        sorted_texts(list).len() == list.len(),
        forall|i: int, j: int|
            0 <= i < j < list.len() ==> text_le(
                #[trigger] sorted_texts(list)[i],
                #[trigger] sorted_texts(list)[j],
            ),
{
    lemma_text_order_total();
    list.lemma_sort_by_ensures(text_order());
    sorted_texts(list).to_multiset_ensures();
    list.to_multiset_ensures();
    assert forall|i: int, j: int| 0 <= i < j < list.len() implies text_le(
        #[trigger] sorted_texts(list)[i],
        #[trigger] sorted_texts(list)[j],
    ) by {
        assert(text_order()(sorted_texts(list)[i], sorted_texts(list)[j]));
    }
}

/// `slice::sort` on strings, which `String` orders by their bytes, that is
/// by the code points of their characters: afterwards no string stands
/// before one that comes earlier in that order, and the list holds what it
/// held before, each string as often.
#[verifier::external_body]
fn sort_strings(list: &mut Vec<String>)
    ensures
        sorted_by(contents(final(list)@), text_order()),
        contents(final(list)@).to_multiset() == contents(old(list)@).to_multiset(),
{
    list.sort();
}

/// Sorts `list` in ascending order.
pub fn sort_names(list: &mut Vec<String>)
    ensures
        contents(final(list)@) == sorted_texts(contents(old(list)@)),
        final(list)@.len() == old(list)@.len(),
{
    let ghost before = contents(list@);
    sort_strings(list);
    proof {
        lemma_text_order_total();
        before.lemma_sort_by_ensures(text_order());
        lemma_sorted_unique(contents(list@), sorted_texts(before), text_order());
        lemma_sorted_texts(before);
    }
}

} // verus!
