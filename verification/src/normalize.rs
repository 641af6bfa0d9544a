//! Turning a raw folder name into a readable title.
//!
//! A name is cleaned in three steps: `.` and `_` become spaces; if a release
//! year follows a leading title, only that title is kept; the words that
//! remain are capitalised and joined by single spaces.

use vstd::prelude::*;
use crate::text::{
    chars_of, copy_range, is_marked, joined_with, lemma_joined_with_push, lemma_next_marked_bounds,
    lemma_skip_marked_bounds, mark_spaces, next_marked, skip_marked, space_marks, string_of,
    upper_form, uppercase_of,
};

verus! {

/// What a character of a raw name becomes before anything else is looked at.
pub open spec fn separator_replaced(c: char) -> char {
    if c == '.' || c == '_' {
        ' '
    } else {
        c
    }
}

/// `s` with every `.` and `_` turned into a space.
pub open spec fn separators_replaced(s: Seq<char>) -> Seq<char> {
    Seq::new(s.len(), |i: int| separator_replaced(s[i]))
}

/// The maximal runs of unmarked characters of `s` that start at or after
/// `i`, in order.
pub open spec fn words_from(s: Seq<char>, marks: Seq<bool>, i: int) -> Seq<Seq<char>>
    decreases s.len() - i,
{
    let start = skip_marked(s.len() as int, marks, i);
    if 0 <= i && start < s.len() {
        let end = next_marked(s.len() as int, marks, start + 1);
        proof {
            lemma_skip_marked_bounds(s.len() as int, marks, i);
            lemma_next_marked_bounds(s.len() as int, marks, start + 1);
        }
        seq![s.subrange(start, end)] + words_from(s, marks, end)
    } else {
        Seq::empty()
    }
}

/// The words of `s` where `marks` tells its whitespace: the maximal runs of
/// characters that are none.
pub open spec fn split(s: Seq<char>, marks: Seq<bool>) -> Seq<Seq<char>> {
    words_from(s, marks, 0)
}

/// The words of `s`: its maximal runs of non-whitespace characters.
pub open spec fn words(s: Seq<char>) -> Seq<Seq<char>> {
    split(s, space_marks(s))
}

/// `word` with `upper` in place of its first character; the rest is kept
/// as it is.
pub open spec fn capitalized_with(word: Seq<char>, upper: Seq<char>) -> Seq<char> {
    if word.len() == 0 {
        word
    } else {
        upper + word.skip(1)
    }
}

/// `word` with its first character replaced by that character's uppercase
/// mapping.
pub open spec fn capitalized(word: Seq<char>) -> Seq<char> {
    if word.len() == 0 {
        word
    } else {
        capitalized_with(word, upper_form(word[0]))
    }
}

/// The words of `ws` with one space between neighbours.
pub open spec fn joined(ws: Seq<Seq<char>>) -> Seq<char> {
    joined_with(ws, seq![' '])
}

/// Every word of `s` capitalised, the words joined by single spaces.
pub open spec fn title_cased(s: Seq<char>) -> Seq<char> {
    joined(words(s).map_values(|w: Seq<char>| capitalized(w)))
}

/// What each word of `list` holds.
pub open spec fn word_views(list: Seq<Vec<char>>) -> Seq<Seq<char>> {
    Seq::new(list.len(), |i: int| list[i]@)
}

/// The text of the first capture group in the leftmost match of the regular
/// expression `pattern` in `text`. `None` where `pattern` is no valid
/// expression, where it matches nowhere in `text`, and where the group took
/// no part in the match.
pub uninterp spec fn first_group(pattern: Seq<char>, text: Seq<char>) -> Option<Seq<char>>;

/// `part` is a run of consecutive characters of `whole`.
pub open spec fn is_part_of(part: Seq<char>, whole: Seq<char>) -> bool {
    exists|i: int, j: int| 0 <= i <= j <= whole.len() && #[trigger] whole.subrange(i, j) == part
}

/// The expression that finds a title in front of a release year. Letters are
/// matched without regard to case. From the start of the text it takes the
/// shortest run of letters, digits, spaces, `.`, `_` and `-` (the first
/// group) that is followed, after any number of spaces, `.`, `_` and `-`, by
/// `19` or `20` and two more digits.
pub const YEAR_PATTERN: &'static str = "(?i)^([a-z0-9 ._-]+?)[ ._-]*(?:19|20)\\d{2}";

/// The part of `text` that names the title: what stands in front of a
/// release year where the text has one, else the whole of it.
pub open spec fn title_source(text: Seq<char>, found: Option<Seq<char>>) -> Seq<char> {
    match found {
        Some(title) => title,
        None => text,
    }
}

/// The clean title of the raw folder name `name`.
pub open spec fn cleaned(name: Seq<char>) -> Seq<char> {
    let text = separators_replaced(name);
    title_cased(title_source(text, first_group(YEAR_PATTERN@, text)))
}

/// A title that cleaning has nothing left to do on: it holds no `.` or `_`
/// and no release year behind a title, its words are capitalised, and
/// nothing but single spaces between the words surrounds them.
pub open spec fn is_clean_title(s: Seq<char>) -> bool {
    &&& forall|i: int| 0 <= i < s.len() ==> s[i] != '.' && s[i] != '_'
    &&& first_group(YEAR_PATTERN@, s) is None
    &&& joined(words(s)) == s
    &&& forall|k: int|
        0 <= k < words(s).len() ==> capitalized(#[trigger] words(s)[k]) == words(s)[k]
}

/// Every word holds at least one character.
pub proof fn lemma_words_not_empty(s: Seq<char>, marks: Seq<bool>, i: int)
    ensures
        forall|k: int|
            0 <= k < words_from(s, marks, i).len() ==> (#[trigger] words_from(s, marks, i)[k]).len()
                > 0,
    decreases s.len() - i,
{
    let start = skip_marked(s.len() as int, marks, i);
    if 0 <= i && start < s.len() {
        let end = next_marked(s.len() as int, marks, start + 1);
        lemma_skip_marked_bounds(s.len() as int, marks, i);
        lemma_next_marked_bounds(s.len() as int, marks, start + 1);
        lemma_words_not_empty(s, marks, end);
        let rest = words_from(s, marks, end);
        assert forall|k: int| 0 <= k < words_from(s, marks, i).len() implies (#[trigger] words_from(
            s,
            marks,
            i,
        )[k]).len() > 0 by {
            if k > 0 {
                assert(words_from(s, marks, i)[k] == rest[k - 1]);
            }
        }
    }
}

/// Replaces every `.` and `_` of `name` by a space.
pub fn replace_separators(name: &str) -> (replaced: String)
    ensures
        replaced@ == separators_replaced(name@),
{
    let chars = chars_of(name);
    let mut out: Vec<char> = Vec::new();
    let mut i: usize = 0;
    while i < chars.len()
        invariant
            i <= chars.len(),
            chars@ == name@,
            out@ == separators_replaced(name@).take(i as int),
        decreases chars.len() - i,
    {
        let c = chars[i];
        if c == '.' || c == '_' {
            out.push(' ');
        } else {
            out.push(c);
        }
        i += 1;
    }
    string_of(&out)
}

/// Splits `chars` into its words, where `marks` tells for each position
/// whether the character there is whitespace.
pub fn split_words(chars: &Vec<char>, marks: &Vec<bool>) -> (words: Vec<Vec<char>>)
    ensures
        word_views(words@) == split(chars@, marks@),
{
    let n = chars.len();
    let mut words: Vec<Vec<char>> = Vec::new();
    let mut i: usize = 0;
    loop
        invariant_except_break
            i <= n,
            n == chars.len(),
            word_views(words@) + words_from(chars@, marks@, i as int) == split(chars@, marks@),
        ensures
            word_views(words@) == split(chars@, marks@),
        decreases n - i,
    {
        let ghost from = i as int;
        while i < n && is_marked(marks, i)
            invariant
                from <= i <= n,
                skip_marked(n as int, marks@, i as int) == skip_marked(n as int, marks@, from),
            decreases n - i,
        {
            i += 1;
        }
        if i >= n {
            assert(words_from(chars@, marks@, from) =~= Seq::<Seq<char>>::empty());
            assert(word_views(words@) =~= split(chars@, marks@));
            break;
        }
        let start = i;
        i += 1;
        while i < n && !is_marked(marks, i)
            invariant
                start < i <= n,
                next_marked(n as int, marks@, i as int) == next_marked(
                    n as int,
                    marks@,
                    start + 1,
                ),
            decreases n - i,
        {
            i += 1;
        }
        let word = copy_range(chars, start, i);
        proof {
            assert(words_from(chars@, marks@, from) == seq![word@] + words_from(
                chars@,
                marks@,
                i as int,
            ));
            assert(word_views(words@.push(word)) =~= word_views(words@).push(word@));
            assert(word_views(words@).push(word@) + words_from(chars@, marks@, i as int)
                =~= word_views(words@) + words_from(chars@, marks@, from));
        }
        words.push(word);
    }
    words
}

/// Puts `upper` in place of the first character of `word`.
pub fn capitalize(word: &Vec<char>, upper: &Vec<char>) -> (out: Vec<char>)
    ensures
        out@ == capitalized_with(word@, upper@),
{
    let mut out: Vec<char> = Vec::new();
    if word.len() == 0 {
        return out;
    }
    let mut i: usize = 0;
    while i < upper.len()
        invariant
            i <= upper.len(),
            out@ == upper@.take(i as int),
        decreases upper.len() - i,
    {
        out.push(upper[i]);
        i += 1;
    }
    assert(upper@.take(upper.len() as int) =~= upper@);
    let mut k: usize = 1;
    while k < word.len()
        invariant
            1 <= k <= word.len(),
            out@ == upper@ + word@.subrange(1, k as int),
        decreases word.len() - k,
    {
        out.push(word[k]);
        k += 1;
    }
    assert(word@.subrange(1, word.len() as int) =~= word@.skip(1));
    out
}

/// Joins `words` with one space between neighbours.
pub fn join_words(words: &Vec<Vec<char>>) -> (out: Vec<char>)
    ensures
        out@ == joined(word_views(words@)),
{
    let mut out: Vec<char> = Vec::new();
    let mut i: usize = 0;
    while i < words.len()
        invariant
            i <= words.len(),
            out@ == joined(word_views(words@).take(i as int)),
        decreases words.len() - i,
    {
        let ghost before = out@;
        let ghost done = word_views(words@).take(i as int);
        if i > 0 {
            out.push(' ');
        }
        let word = &words[i];
        let mut k: usize = 0;
        while k < word.len()
            invariant
                k <= word.len(),
                out@ == (if i > 0 {
                    before.push(' ')
                } else {
                    before
                }) + word@.take(k as int),
            decreases word.len() - k,
        {
            out.push(word[k]);
            k += 1;
        }
        proof {
            assert(word@.take(word.len() as int) =~= word@);
            lemma_joined_with_push(done, seq![' '], word@);
            assert(done.push(word@) =~= word_views(words@).take(i + 1));
            assert(out@ =~= joined(done.push(word@)));
        }
        i += 1;
    }
    assert(word_views(words@).take(words.len() as int) =~= word_views(words@));
    out
}

/// Capitalises every word of `text` and joins the words by single spaces.
/// Whitespace at either end and between words does not reach the result.
pub fn title_case(text: &str) -> (title: String)
    ensures
        title@ == title_cased(text@),
        title@.len() == 0 <==> words(text@).len() == 0,
{
    let chars = chars_of(text);
    let marks = mark_spaces(&chars);
    let found = split_words(&chars, &marks);
    let mut titled: Vec<Vec<char>> = Vec::new();
    let mut i: usize = 0;
    while i < found.len()
        invariant
            i <= found.len(),
            titled@.len() == i,
            forall|k: int| 0 <= k < i ==> (#[trigger] titled@[k])@ == capitalized(found@[k]@),
            forall|k: int|
                0 <= k < i && found@[k]@.len() > 0 ==> (#[trigger] titled@[k])@.len() > 0,
        decreases found.len() - i,
    {
        let word = &found[i];
        let upper = if word.len() > 0 {
            uppercase_of(word[0])
        } else {
            Vec::new()
        };
        titled.push(capitalize(word, &upper));
        i += 1;
    }
    assert(word_views(titled@) =~= words(text@).map_values(|w: Seq<char>| capitalized(w)));
    proof {
        lemma_words_not_empty(text@, space_marks(text@), 0);
        let parts = word_views(titled@);
        if parts.len() > 0 {
            assert(word_views(found@)[parts.len() - 1].len() > 0);
            assert(parts.last().len() > 0);
        }
    }
    string_of(&join_words(&titled))
}

/// Runs `regex::Regex::new` on `pattern`, `Regex::captures` on `text`, and
/// takes the text of group 1 with `Captures::get` and `Match::as_str`. The
/// outcome depends on the two strings alone and is what `first_group` names.
/// A captured text is a substring of the text that was searched.
#[verifier::external_body]
fn first_capture(pattern: &str, text: &str) -> (found: Option<String>)
    ensures
        match found {
            Some(t) => first_group(pattern@, text@) == Some(t@) && is_part_of(t@, text@),
            None => first_group(pattern@, text@) is None,
        },
{
    let re = regex::Regex::new(pattern).ok()?;
    let caps = re.captures(text)?;
    let group = caps.get(1)?;
    Some(group.as_str().to_string())
}

/// The title that stands in front of a release year in `text`, if `text`
/// has one. `text` is a name whose separators have been replaced.
pub fn title_before_year(text: &str) -> (found: Option<String>)
    ensures
        match found {
            Some(t) => first_group(YEAR_PATTERN@, text@) == Some(t@) && is_part_of(t@, text@),
            None => first_group(YEAR_PATTERN@, text@) is None,
        },
{
    first_capture(YEAR_PATTERN, text)
}

/// Title-cases what names the title: `found` where a release year was
/// found behind it, else the whole of `text`.
pub fn title_from(text: &str, found: Option<String>) -> (title: String)
    ensures
        title@ == title_cased(
            title_source(
                text@,
                match found {
                    Some(t) => Some(t@),
                    None => None,
                },
            ),
        ),
{
    match found {
        Some(t) => title_case(t.as_str()),
        None => title_case(text),
    }
}

/// Derives a readable title from a raw folder name.
pub fn clean_filename(name: &str) -> (title: String)
    ensures
        title@ == cleaned(name@),
        name@.len() == 0 ==> title@.len() == 0,
{
    let text = replace_separators(name);
    let found = title_before_year(text.as_str());
    proof {
        if name@.len() == 0 {
            let source = title_source(text@, first_group(YEAR_PATTERN@, text@));
            assert(source.len() == 0);
            assert(words(source) =~= Seq::<Seq<char>>::empty());
        }
    }
    title_from(text.as_str(), found)
}

/// Cleaning a clean title gives the same title back.
pub proof fn lemma_clean_title_is_fixed(s: Seq<char>)
    ensures
        is_clean_title(s) ==> cleaned(s) == s,
{
    if is_clean_title(s) {
        assert(separators_replaced(s) =~= s);
        assert(words(s).map_values(|w: Seq<char>| capitalized(w)) =~= words(s));
    }
}

} // verus!
