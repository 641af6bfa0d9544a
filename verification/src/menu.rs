//! Menus: the line shown for a source folder, and the number read from
//! what the user typed.

use vstd::prelude::*;
use vstd::string::StringExecFns;
use crate::text::{
    chars_of, contents, is_marked, mark_spaces, marked, same_text, skip_marked, space_marks,
};

verus! {

/// Where the text from `start` up to `end` ends once the marked positions
/// at its end are dropped.
pub open spec fn trim_end_at(marks: Seq<bool>, start: int, end: int) -> int
    decreases end - start,
{
    if start < end && marked(marks, end - 1) {
        trim_end_at(marks, start, end - 1)
    } else {
        end
    }
}

/// `s` without the whitespace at either end, where `marks` tells for each
/// position whether the character there is whitespace.
pub open spec fn trimmed_by(s: Seq<char>, marks: Seq<bool>) -> Seq<char> {
    let start = skip_marked(s.len() as int, marks, 0);
    s.subrange(start, trim_end_at(marks, start, s.len() as int))
}

/// `s` without the whitespace at either end.
pub open spec fn trimmed(s: Seq<char>) -> Seq<char> {
    trimmed_by(s, space_marks(s))
}

/// Whether `c` is one of the digits `0` to `9`.
pub open spec fn is_digit(c: char) -> bool {
    '0' <= c && c <= '9'
}

/// The number that the digit `c` stands for.
pub open spec fn digit_value(c: char) -> nat {
    if is_digit(c) {
        (c as int - '0' as int) as nat
    } else {
        0
    }
}

/// The number that `digits` writes in base ten.
pub open spec fn decimal_value(digits: Seq<char>) -> nat
    decreases digits.len(),
{
    if digits.len() == 0 {
        0
    } else {
        10 * decimal_value(digits.drop_last()) + digit_value(digits.last())
    }
}

/// `s` without the `+` sign that may stand in front of a number.
pub open spec fn unsigned_part(s: Seq<char>) -> Seq<char> {
    if s.len() > 0 && s[0] == '+' {
        s.skip(1)
    } else {
        s
    }
}

/// The number that `s` writes: an optional `+`, then one or more digits and
/// nothing else, with a value that fits 32 bits.
pub open spec fn parsed_u32(s: Seq<char>) -> Option<u32> {
    let digits = unsigned_part(s);
    if digits.len() > 0 && (forall|i: int| 0 <= i < digits.len() ==> is_digit(digits[i]))
        && decimal_value(digits) <= u32::MAX {
        Some(decimal_value(digits) as u32)
    } else {
        None
    }
}

/// The entry of a menu of `count` numbered lines that `text` picks: the
/// number that it writes, if that is one of 1 to `count`. Everything else
/// picks nothing, which is 0.
pub open spec fn choice_within(text: Seq<char>, count: nat) -> u32 {
    match parsed_u32(text) {
        Some(n) => if 1 <= n && n <= count {
            n
        } else {
            0
        },
        None => 0,
    }
}

/// The entry that `line` picks where `marks` tells its whitespace: what the
/// line writes between the whitespace at its ends counts.
pub open spec fn choice_by(line: Seq<char>, marks: Seq<bool>, count: nat) -> u32 {
    choice_within(trimmed_by(line, marks), count)
}

/// The entry of a menu of `count` numbered lines that `line` picks: the
/// number that it writes between any whitespace, if that is one of 1 to
/// `count`. Everything else picks nothing, which is 0.
pub open spec fn choice_of(line: Seq<char>, count: nat) -> u32 {
    choice_within(trimmed(line), count)
}

/// The digit that writes `d`, for `d` below ten.
pub open spec fn digit_char(d: nat) -> char {
    ('0' as u8 + d as u8) as char
}

/// `n` written in base ten, without leading zeros.
pub open spec fn decimal_text(n: nat) -> Seq<char>
    decreases n,
{
    if n < 10 {
        seq![digit_char(n)]
    } else {
        decimal_text(n / 10).push(digit_char(n % 10))
    }
}

/// The lines of a menu that offers `options`: each option behind its
/// number, counted from 1, a colon and a space.
pub open spec fn numbered(options: Seq<Seq<char>>) -> Seq<Seq<char>> {
    Seq::new(
        options.len(),
        |i: int| decimal_text((i + 1) as nat) + seq![':', ' '] + options[i],
    )
}

/// The line that the menu shows for the source folder `name`: the bare name
/// while the folder has no destination name, else the name behind a `*`,
/// followed by the destination name in brackets where the two differ.
pub open spec fn label_of(name: Seq<char>, mapped: Option<Seq<char>>) -> Seq<char> {
    match mapped {
        None => name,
        Some(dest) => if dest == name {
            seq!['*'] + name
        } else {
            seq!['*'] + name + seq![' ', '('] + dest + seq![')']
        },
    }
}

/// A number written with more digits is not smaller.
pub proof fn lemma_decimal_value_grows(digits: Seq<char>, k: int)
    requires
        0 <= k <= digits.len(),
    ensures
        decimal_value(digits.take(k)) <= decimal_value(digits),
    decreases digits.len() - k,
{
    if k < digits.len() {
        lemma_decimal_value_grows(digits.drop_last(), k);
        assert(digits.drop_last().take(k) =~= digits.take(k));
    } else {
        assert(digits.take(k) =~= digits);
    }
}

/// What `decimal_text` writes is digits, at least one, and they write `n`.
pub proof fn lemma_decimal_text(n: nat)
    ensures
        decimal_text(n).len() > 0,
        forall|i: int| 0 <= i < decimal_text(n).len() ==> is_digit(#[trigger] decimal_text(n)[i]),
        decimal_value(decimal_text(n)) == n,
    decreases n,
{
    if n < 10 {
        let s = decimal_text(n);
        assert(s.drop_last() =~= Seq::<char>::empty());
        assert(decimal_value(s.drop_last()) == 0);
        assert(digit_value(s.last()) == n);
    } else {
        lemma_decimal_text(n / 10);
        let s = decimal_text(n);
        assert(s.drop_last() =~= decimal_text(n / 10));
        assert(digit_value(s.last()) == n % 10);
    }
}

/// The number shown in front of a menu line is read back as that number,
/// and picks that line where the menu has it.
pub proof fn lemma_number_reads_back(n: nat, count: nat)
    requires
        n <= u32::MAX,
    ensures
        parsed_u32(decimal_text(n)) == Some(n as u32),
        trimmed(decimal_text(n)) == decimal_text(n),
        1 <= n <= count ==> choice_of(decimal_text(n), count) == n,
{
    lemma_decimal_text(n);
    let text = decimal_text(n);
    let marks = space_marks(text);
    assert(is_digit(text[0]));
    assert(is_digit(text[text.len() - 1]));
    assert(!marked(marks, 0));
    assert(!marked(marks, text.len() - 1));
    assert(trimmed(text) =~= text);
}

/// Reads the number that `chars` writes from `from` up to `to`.
fn parse_range(chars: &Vec<char>, from: usize, to: usize) -> (value: Option<u32>)
    requires
        from <= to <= chars.len(),
    ensures
        value == parsed_u32(chars@.subrange(from as int, to as int)),
{
    let ghost text = chars@.subrange(from as int, to as int);
    let mut start = from;
    if start < to && chars[start] == '+' {
        start += 1;
    }
    let ghost digits = unsigned_part(text);
    assert(digits =~= chars@.subrange(start as int, to as int));
    if start >= to {
        return None;
    }
    let mut total: u64 = 0;
    let mut i = start;
    while i < to
        invariant
            from <= start <= i <= to <= chars.len(),
            digits == unsigned_part(chars@.subrange(from as int, to as int)),
            digits == chars@.subrange(start as int, to as int),
            forall|k: int| 0 <= k < i - start ==> is_digit(digits[k]),
            total == decimal_value(digits.take(i - start)),
            total <= u32::MAX,
        decreases to - i,
    {
        let c = chars[i];
        if !('0' <= c && c <= '9') {
            assert(!is_digit(digits[i - start]));
            return None;
        }
        let d: u64 = (c as u32 - '0' as u32) as u64;
        proof {
            let head = digits.take(i - start + 1);
            assert(head.drop_last() =~= digits.take(i - start));
            assert(head.last() == c);
            assert(d == digit_value(c));
            assert(decimal_value(head) == 10 * total + d);
        }
        total = total * 10 + d;
        if total > 0xffff_ffff {
            proof {
                lemma_decimal_value_grows(digits, i - start + 1);
            }
            return None;
        }
        i += 1;
    }
    assert(digits.take(to - start) =~= digits);
    Some(total as u32)
}

/// The bounds of what is left of `chars` without the marked positions at
/// either end.
fn trim_bounds(chars: &Vec<char>, marks: &Vec<bool>) -> (bounds: (usize, usize))
    ensures
        bounds.0 <= bounds.1 <= chars.len(),
        trimmed_by(chars@, marks@) == chars@.subrange(bounds.0 as int, bounds.1 as int),
{
    let n = chars.len();
    let mut start: usize = 0;
    while start < n && is_marked(marks, start)
        invariant
            start <= n,
            skip_marked(n as int, marks@, start as int) == skip_marked(n as int, marks@, 0),
        decreases n - start,
    {
        start += 1;
    }
    let mut end: usize = n;
    while end > start && is_marked(marks, end - 1)
        invariant
            start <= end <= n,
            trim_end_at(marks@, start as int, end as int) == trim_end_at(
                marks@,
                start as int,
                n as int,
            ),
        decreases end - start,
    {
        end -= 1;
    }
    (start, end)
}

/// Reads an unsigned number of 32 bits from `text`: an optional `+` and
/// digits, nothing before, between or after them.
pub fn parse_u32(text: &str) -> (value: Option<u32>)
    ensures
        value == parsed_u32(text@),
{
    let chars = chars_of(text);
    assert(chars@.subrange(0, chars@.len() as int) =~= chars@);
    parse_range(&chars, 0, chars.len())
}

/// Reads the user's pick from the characters of a line, for a menu of
/// `count` numbered lines; `marks` tells for each position whether the
/// character there is whitespace. The result is 0 where the line picks
/// none of the menu's lines.
pub fn pick_choice(chars: &Vec<char>, marks: &Vec<bool>, count: usize) -> (choice: u32)
    ensures
        choice == choice_by(chars@, marks@, count as nat),
        choice <= count,
{
    let (start, end) = trim_bounds(chars, marks);
    match parse_range(chars, start, end) {
        Some(n) => {
            if n == 0 || n as usize > count {
                0
            } else {
                n
            }
        },
        None => 0,
    }
}

/// Reads the user's pick from `line`, for a menu of `count` numbered
/// lines. The result is 0 where the line picks none of them.
pub fn parse_choice(line: &str, count: usize) -> (choice: u32)
    ensures
        choice == choice_of(line@, count as nat),
        choice <= count,
{
    let chars = chars_of(line);
    let marks = mark_spaces(&chars);
    pick_choice(&chars, &marks, count)
}

/// Writes the digits of `n` at the end of `out`.
fn push_decimal(n: usize, out: &mut String)
    ensures
        final(out)@ == old(out)@ + decimal_text(n as nat),
    decreases n,
{
    if n >= 10 {
        push_decimal(n / 10, out);
    }
    let d: u8 = (n % 10) as u8;
    out.push((48u8 + d) as char);
    assert(out@ =~= old(out)@ + decimal_text(n as nat));
}

/// `n` written in base ten.
pub fn number_text(n: usize) -> (text: String)
    ensures
        text@ == decimal_text(n as nat),
{
    let mut text = String::new();
    push_decimal(n, &mut text);
    assert(text@ =~= decimal_text(n as nat));
    text
}

/// The lines of the menu that offers `options`, numbered from 1.
pub fn numbered_lines(options: &Vec<String>) -> (lines: Vec<String>)
    ensures
        contents(lines@) == numbered(contents(options@)),
{
    let mut lines: Vec<String> = Vec::new();
    let mut i: usize = 0;
    while i < options.len()
        invariant
            i <= options.len(),
            lines@.len() == i,
            forall|k: int|
                0 <= k < i ==> (#[trigger] lines@[k])@ == decimal_text((k + 1) as nat) + seq![
                    ':',
                    ' ',
                ] + options@[k]@,
        decreases options.len() - i,
    {
        let mut line = number_text(i + 1);
        proof {
            reveal_strlit(": ");
            assert(": "@ =~= seq![':', ' ']);
        }
        line.append(": ");
        line.append(options[i].as_str());
        lines.push(line);
        i += 1;
    }
    assert(contents(lines@) =~= numbered(contents(options@)));
    lines
}

/// The menu line for the source folder `name`, whose destination name, if
/// it has one, is `mapped`.
pub fn menu_label(name: &str, mapped: Option<&str>) -> (label: String)
    ensures
        label@ == label_of(
            name@,
            match mapped {
                Some(dest) => Some(dest@),
                None => None,
            },
        ),
{
    match mapped {
        None => String::from_str(name),
        Some(dest) => {
            let mut label = String::from_str("*");
            proof {
                reveal_strlit("*");
                reveal_strlit(" (");
                reveal_strlit(")");
                assert("*"@ =~= seq!['*']);
                assert(" ("@ =~= seq![' ', '(']);
                assert(")"@ =~= seq![')']);
            }
            label.append(name);
            if !same_text(dest, name) {
                label.append(" (");
                label.append(dest);
                label.append(")");
            }
            label
        },
    }
}

} // verus!
