//! Text as it stands in header fields and in URIs.

use vstd::prelude::*;
use vstd::string::StrSliceExecFns;
use vstd::string::StringExecFns;

verus! {

/// A letter of the ASCII alphabet as a small letter; any other character as it
/// is.
pub open spec fn lower_char(c: char) -> char {
    if 'A' <= c && c <= 'Z' {
        ((c as u32) + 32) as char
    } else {
        c
    }
}

/// `text` with the letters of the ASCII alphabet as small letters.
pub open spec fn lower(text: Seq<char>) -> Seq<char> {
    Seq::new(text.len(), |i: int| lower_char(text[i]))
}

/// The strings in a vector.
pub open spec fn texts(strings: Seq<String>) -> Seq<Seq<char>> {
    strings.map_values(|s: String| s@)
}

/// `str::eq_ignore_ascii_case` of the standard library: whether two strings are
/// the same once the letters of the ASCII alphabet are small letters.
pub assume_specification[ str::eq_ignore_ascii_case ](text: &str, other: &str) -> (same: bool)
    ensures
        same == (lower(text@) == lower(other@)),
;

/// The first place of `mark` in `text`, or the length of `text`.
pub open spec fn find(text: Seq<char>, mark: char) -> int
    decreases text.len(),
{
    if text.len() == 0 || text[0] == mark {
        0
    } else {
        1 + find(text.drop_first(), mark)
    }
}

/// The parts of `text` between the marks.
pub open spec fn split_on(text: Seq<char>, mark: char) -> Seq<Seq<char>>
    decreases text.len(),
{
    let at = find(text, mark);
    if 0 <= at < text.len() {
        seq![text.take(at)] + split_on(text.skip(at + 1), mark)
    } else {
        seq![text]
    }
}

/// Whether a character of the ASCII alphabet is white space.
pub open spec fn is_blank(c: char) -> bool {
    c == ' ' || ('\t' <= c && c <= '\r')
}

/// `text` without the white space before it.
pub open spec fn trim_start(text: Seq<char>) -> Seq<char>
    decreases text.len(),
{
    if text.len() > 0 && is_blank(text[0]) {
        trim_start(text.drop_first())
    } else {
        text
    }
}

/// `text` without the white space behind it.
pub open spec fn trim_end(text: Seq<char>) -> Seq<char>
    decreases text.len(),
{
    if text.len() > 0 && is_blank(text.last()) {
        trim_end(text.drop_last())
    } else {
        text
    }
}

/// `text` without the white space around it.
pub open spec fn trim(text: Seq<char>) -> Seq<char> {
    trim_end(trim_start(text))
}

/// The parts without the white space around them.
pub open spec fn trim_all(parts: Seq<Seq<char>>) -> Seq<Seq<char>> {
    parts.map_values(|part: Seq<char>| trim(part))
}

/// The items of a list that is written with commas.
pub open spec fn list_items(text: Seq<char>) -> Seq<Seq<char>> {
    trim_all(split_on(text, ','))
}

/// The parts put together again, with the marks between them.
pub open spec fn joined(parts: Seq<Seq<char>>, mark: char) -> Seq<char>
    decreases parts.len(),
{
    if parts.len() == 0 {
        Seq::empty()
    } else if parts.len() == 1 {
        parts[0]
    } else {
        parts[0] + seq![mark] + joined(parts.drop_first(), mark)
    }
}

proof fn lemma_find(text: Seq<char>, mark: char)
    ensures
        0 <= find(text, mark) <= text.len(),
        find(text, mark) < text.len() ==> text[find(text, mark)] == mark,
        forall|i: int| 0 <= i < find(text, mark) ==> text[i] != mark,
    decreases text.len(),
{
    if text.len() > 0 && text[0] != mark {
        let rest = text.drop_first();
        lemma_find(rest, mark);
        assert forall|i: int| 0 <= i < find(text, mark) implies text[i] != mark by {
            if i > 0 {
                assert(text[i] == rest[i - 1]);
            }
        }
        if find(text, mark) < text.len() {
            assert(text[find(text, mark)] == rest[find(rest, mark)]);
        }
    }
}

proof fn lemma_find_is_first(text: Seq<char>, mark: char, at: int)
    requires
        0 <= at <= text.len(),
        at < text.len() ==> text[at] == mark,
        forall|i: int| 0 <= i < at ==> text[i] != mark,
    ensures
        find(text, mark) == at,
{
    lemma_find(text, mark);
    let found = find(text, mark);
    if found < at {
        assert(text[found] == mark);
    } else if at < found {
        assert(text[at] != mark);
    }
}

/// Splitting a text loses nothing: no part holds the mark, and the parts with
/// the marks between them are the text.
pub proof fn law_split_loses_nothing(text: Seq<char>, mark: char)
    ensures
        split_on(text, mark).len() >= 1,
        forall|i: int|
            0 <= i < split_on(text, mark).len() ==> !(#[trigger] split_on(text, mark)[i]).contains(mark),
        joined(split_on(text, mark), mark) == text,
    decreases text.len(),
{
    lemma_find(text, mark);
    let at = find(text, mark);
    let parts = split_on(text, mark);
    if at < text.len() {
        let rest = text.skip(at + 1);
        let later = split_on(rest, mark);
        law_split_loses_nothing(rest, mark);
        assert(parts == seq![text.take(at)] + later);
        assert(parts.drop_first() =~= later);
        assert(text.take(at) + seq![mark] + rest =~= text);
        assert forall|i: int| 0 <= i < parts.len() implies !(#[trigger] parts[i]).contains(mark) by {
            if i > 0 {
                assert(parts[i] == later[i - 1]);
            }
        }
    } else {
        assert(parts == seq![text]);
        assert(joined(parts, mark) == text);
    }
}

/// Parts that hold no mark come back from the text that they are joined to.
pub proof fn law_joined_parts_split_again(parts: Seq<Seq<char>>, mark: char)
    requires
        parts.len() > 0,
        forall|i: int| 0 <= i < parts.len() ==> !(#[trigger] parts[i]).contains(mark),
    ensures
        split_on(joined(parts, mark), mark) == parts,
    decreases parts.len(),
{
    let text = joined(parts, mark);
    let first = parts[0];
    if parts.len() > 1 {
        let later = parts.drop_first();
        assert forall|i: int| 0 <= i < later.len() implies !(#[trigger] later[i]).contains(mark) by {
            assert(later[i] == parts[i + 1]);
        }
        law_joined_parts_split_again(later, mark);
        assert forall|i: int| 0 <= i < first.len() implies text[i] != mark by {
            assert(text[i] == first[i]);
        }
        lemma_find_is_first(text, mark, first.len() as int);
        assert(text.take(first.len() as int) =~= first);
        assert(text.skip(first.len() as int + 1) =~= joined(later, mark));
        assert(seq![first] + later =~= parts);
    } else {
        lemma_find_is_first(text, mark, text.len() as int);
        assert(seq![first] =~= parts);
    }
}

/// A list of items without commas and without white space around them is read
/// as it was written.
pub proof fn law_lists_are_read_back(items: Seq<Seq<char>>)
    requires
        items.len() > 0,
        forall|i: int|
            0 <= i < items.len() ==> !(#[trigger] items[i]).contains(',') && trim(items[i]) == items[i],
    ensures
        list_items(joined(items, ',')) == items,
{
    law_joined_parts_split_again(items, ',');
    assert(trim_all(items) =~= items);
}

proof fn lemma_trim_end_step(text: Seq<char>, from: int, to: int)
    requires
        0 <= from < to <= text.len(),
        is_blank(text[to - 1]),
    ensures
        trim_end(text.subrange(from, to)) == trim_end(text.subrange(from, to - 1)),
{
    assert(text.subrange(from, to).drop_last() =~= text.subrange(from, to - 1));
    assert(text.subrange(from, to).last() == text[to - 1]);
}

proof fn lemma_trim_start_step(text: Seq<char>, from: int, to: int)
    requires
        0 <= from < to <= text.len(),
        is_blank(text[from]),
    ensures
        trim_start(text.subrange(from, to)) == trim_start(text.subrange(from + 1, to)),
{
    assert(text.subrange(from, to).drop_first() =~= text.subrange(from + 1, to));
    assert(text.subrange(from, to)[0] == text[from]);
}

/// The characters of `text` from `from` to `to`, without the white space around
/// them.
fn trimmed(text: &str, from: usize, to: usize) -> (part: String)
    requires
        text.is_ascii(),
        from <= to <= text@.len(),
    ensures
        part@ == trim(text@.subrange(from as int, to as int)),
{
    let mut start = from;
    while start < to && is_blank_byte(text.get_ascii(start))
        invariant
            text.is_ascii(),
            from <= start <= to <= text@.len(),
            trim_start(text@.subrange(from as int, to as int)) == trim_start(
                text@.subrange(start as int, to as int),
            ),
        ensures
            start == to || !is_blank(text@[start as int]),
        decreases to - start,
    {
        proof {
            lemma_trim_start_step(text@, start as int, to as int);
        }
        start += 1;
    }
    let ghost inner = text@.subrange(start as int, to as int);
    proof {
        assert(trim_start(inner) == inner);
    }
    let mut end = to;
    while end > start && is_blank_byte(text.get_ascii(end - 1))
        invariant
            text.is_ascii(),
            start <= end <= to <= text@.len(),
            trim_end(inner) == trim_end(text@.subrange(start as int, end as int)),
        ensures
            end == start || !is_blank(text@[end - 1]),
        decreases end - start,
    {
        proof {
            lemma_trim_end_step(text@, start as int, end as int);
        }
        end -= 1;
    }
    proof {
        let result = text@.subrange(start as int, end as int);
        assert(trim_end(result) == result);
    }
    text.substring_ascii(start, end).to_owned()
}

/// Whether a character of the ASCII alphabet, given by its number, is white
/// space.
fn is_blank_byte(byte: u8) -> (blank: bool)
    ensures
        blank == (byte == 32 || 9 <= byte <= 13),
{
    byte == 32 || (9 <= byte && byte <= 13)
}

proof fn lemma_push_item(items: Seq<String>, item: String, parts: Seq<Seq<char>>, part: Seq<char>)
    requires
        texts(items) == trim_all(parts),
        item@ == trim(part),
    ensures
        texts(items.push(item)) == trim_all(parts.push(part)),
{
    assert(texts(items.push(item)) =~= texts(items).push(item@));
    assert(trim_all(parts.push(part)) =~= trim_all(parts).push(trim(part)));
}

/// Reads a list that is written with commas.
pub(crate) fn read_list(text: &str) -> (items: Vec<String>)
    requires
        text.is_ascii(),
    ensures
        texts(items@) == list_items(text@),
{
    let mut items: Vec<String> = Vec::new();
    let len = text.unicode_len();
    let mut start: usize = 0;
    let mut at: usize = 0;
    let ghost mut parts: Seq<Seq<char>> = Seq::empty();
    proof {
        assert(text@.skip(0) =~= text@);
    }
    while at < len
        invariant
            text.is_ascii(),
            len == text@.len(),
            start <= at <= len,
            forall|i: int| start <= i < at ==> text@[i] != ',',
            split_on(text@, ',') == parts + split_on(text@.skip(start as int), ','),
            texts(items@) == trim_all(parts),
        decreases len - at,
    {
        if text.get_ascii(at) == 44 {
            proof {
                let before = parts;
                let rest = text@.skip(start as int);
                lemma_find_is_first(rest, ',', at - start);
                assert(rest.take(at - start) =~= text@.subrange(start as int, at as int));
                assert(rest.skip(at - start + 1) =~= text@.skip(at + 1));
                let part = text@.subrange(start as int, at as int);
                assert(split_on(text@, ',') =~= parts.push(part) + split_on(text@.skip(at + 1), ','));
                parts = parts.push(part);
                assert(parts.drop_last() =~= before);
            }
            let item = trimmed(text, start, at);
            proof {
                lemma_push_item(items@, item, parts.drop_last(), parts.last());
            }
            items.push(item);
            at += 1;
            start = at;
        } else {
            at += 1;
        }
    }
    proof {
        let rest = text@.skip(start as int);
        lemma_find_is_first(rest, ',', len - start);
        assert(rest =~= text@.subrange(start as int, len as int));
        assert(split_on(text@, ',') =~= parts.push(rest));
        let before = parts;
        parts = parts.push(rest);
        assert(parts.drop_last() =~= before);
    }
    let item = trimmed(text, start, len);
    proof {
        lemma_push_item(items@, item, parts.drop_last(), parts.last());
    }
    items.push(item);
    items
}

/// The digit for a number below ten.
pub open spec fn digit(n: nat) -> char {
    (48 + n) as char
}

/// A number in decimal digits, without leading zeros.
pub open spec fn decimal(n: nat) -> Seq<char>
    decreases n,
{
    if n < 10 {
        seq![digit(n)]
    } else {
        decimal(n / 10).push(digit(n % 10))
    }
}

/// The digit for a number below ten, as a string.
fn digit_text(n: u16) -> (text: &'static str)
    requires
        n < 10,
    ensures
        text@ == seq![digit(n as nat)],
{
    proof {
        reveal_strlit("0");
        reveal_strlit("1");
        reveal_strlit("2");
        reveal_strlit("3");
        reveal_strlit("4");
        reveal_strlit("5");
        reveal_strlit("6");
        reveal_strlit("7");
        reveal_strlit("8");
        reveal_strlit("9");
    }
    match n {
        0 => "0",
        1 => "1",
        2 => "2",
        3 => "3",
        4 => "4",
        5 => "5",
        6 => "6",
        7 => "7",
        8 => "8",
        _ => "9",
    }
}

/// Writes a number in decimal digits.
pub fn write_decimal(n: u16) -> (text: String)
    ensures
        text@ == decimal(n as nat),
    decreases n,
{
    if n < 10 {
        digit_text(n).to_owned()
    } else {
        let mut text = write_decimal(n / 10);
        text.append(digit_text(n % 10));
        text
    }
}

/// What is cut off a text by trimming is white space, all that can be: what is
/// left is the text between two places, with nothing but white space outside
/// and none at either end.
pub proof fn law_trimming_cuts_white_space(text: Seq<char>) -> (bounds: (int, int))
    ensures
        0 <= bounds.0 <= bounds.1 <= text.len(),
        trim(text) == text.subrange(bounds.0, bounds.1),
        forall|i: int|
            (0 <= i < bounds.0 || bounds.1 <= i < text.len()) ==> {
                ||| #[trigger] text[i] == ' '
                ||| '\t' <= text[i] && text[i] <= '\r'
            },
        trim(text).len() > 0 ==> {
            &&& trim(text)[0] != ' '
            &&& trim(text)[0] < '\t' || trim(text)[0] > '\r'
            &&& trim(text).last() != ' '
            &&& trim(text).last() < '\t' || trim(text).last() > '\r'
        },
{
    let start = lemma_trim_start(text);
    let inner = trim_start(text);
    let end = lemma_trim_end(inner);
    assert(inner.take(end) =~= text.subrange(start, start + end));
    assert forall|i: int| (0 <= i < start || start + end <= i < text.len()) implies ({
        ||| #[trigger] text[i] == ' '
        ||| '\t' <= text[i] && text[i] <= '\r'
    }) by {
        if i >= start + end {
            assert(text[i] == inner[i - start]);
        }
    }
    if end > 0 {
        assert(trim(text)[0] == text[start]);
        assert(trim(text).last() == inner[end - 1]);
    }
    (start, start + end)
}

proof fn lemma_trim_start(text: Seq<char>) -> (start: int)
    ensures
        0 <= start <= text.len(),
        trim_start(text) == text.skip(start),
        forall|i: int| 0 <= i < start ==> is_blank(#[trigger] text[i]),
        start < text.len() ==> !is_blank(text[start]),
    decreases text.len(),
{
    if text.len() > 0 && is_blank(text[0]) {
        let rest = text.drop_first();
        let start = lemma_trim_start(rest) + 1;
        assert(rest.skip(start - 1) =~= text.skip(start));
        assert forall|i: int| 0 <= i < start implies is_blank(#[trigger] text[i]) by {
            if i > 0 {
                assert(text[i] == rest[i - 1]);
            }
        }
        start
    } else {
        assert(text.skip(0) =~= text);
        0
    }
}

proof fn lemma_trim_end(text: Seq<char>) -> (end: int)
    ensures
        0 <= end <= text.len(),
        trim_end(text) == text.take(end),
        forall|i: int| end <= i < text.len() ==> is_blank(#[trigger] text[i]),
        end > 0 ==> !is_blank(text[end - 1]),
    decreases text.len(),
{
    if text.len() > 0 && is_blank(text.last()) {
        let rest = text.drop_last();
        let end = lemma_trim_end(rest);
        assert(rest.take(end) =~= text.take(end));
        assert forall|i: int| end <= i < text.len() implies is_blank(#[trigger] text[i]) by {
            if i < rest.len() {
                assert(text[i] == rest[i]);
            }
        }
        end
    } else {
        assert(text.take(text.len() as int) =~= text);
        text.len() as int
    }
}

/// A list has an item for every part between the commas, in order: that part
/// without the white space around it.  None is left out, not even an empty one.
pub proof fn law_items_are_trimmed_parts(text: Seq<char>)
    ensures
        list_items(text).len() == split_on(text, ',').len(),
        forall|i: int|
            0 <= i < split_on(text, ',').len() ==> #[trigger] list_items(text)[i] == trim(
                split_on(text, ',')[i],
            ),
{
}

/// The number that decimal digits stand for.
pub open spec fn number(digits: Seq<char>) -> int
    decreases digits.len(),
{
    if digits.len() == 0 {
        0
    } else {
        10 * number(digits.drop_last()) + (digits.last() as int - '0' as int)
    }
}

/// A number that is written is read back: it is written in digits alone, and
/// begins with a zero only if it is zero.
pub proof fn law_numbers_are_read_back(n: u16, text: String)
    requires
        call_ensures(write_decimal, (n,), text),
    ensures
        number(text@) == n,
        text@.len() > 0,
        forall|i: int| 0 <= i < text@.len() ==> '0' <= #[trigger] text@[i] && text@[i] <= '9',
        text@[0] == '0' ==> n == 0 && text@.len() == 1,
{
    law_decimals_are_read_back(n as nat);
}

/// Decimal digits stand for the number that they were made of.
pub proof fn law_decimals_are_read_back(n: nat)
    ensures
        number(decimal(n)) == n,
        decimal(n).len() > 0,
        forall|i: int| 0 <= i < decimal(n).len() ==> '0' <= #[trigger] decimal(n)[i] && decimal(n)[i]
            <= '9',
        decimal(n)[0] == '0' ==> n == 0 && decimal(n).len() == 1,
    decreases n,
{
    if n >= 10 {
        law_decimals_are_read_back(n / 10);
        let front = decimal(n / 10);
        assert(decimal(n).drop_last() =~= front);
        assert(decimal(n).last() == digit(n % 10));
        assert(number(decimal(n)) == 10 * number(front) + (digit(n % 10) as int - '0' as int));
        assert(decimal(n)[0] == front[0]);
        assert forall|i: int| 0 <= i < decimal(n).len() implies '0' <= #[trigger] decimal(n)[i]
            && decimal(n)[i] <= '9' by {
            if i < front.len() {
                assert(decimal(n)[i] == front[i]);
            }
        }
    } else {
        assert(decimal(n).drop_last() =~= Seq::empty());
        assert(number(decimal(n).drop_last()) == 0);
        assert(decimal(n).last() == digit(n));
    }
}

} // verus!
