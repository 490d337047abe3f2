//! Values out of the baggage of a request: a list of `key=value` items, separated by commas.

use vstd::prelude::*;

verus! {

/// Whether a character is white space: the characters with the Unicode property White_Space.
pub open spec fn is_space(c: char) -> bool {
    let n = c as u32;
    ||| 0x9 <= n <= 0xd
    ||| n == 0x20
    ||| n == 0x85
    ||| n == 0xa0
    ||| n == 0x1680
    ||| 0x2000 <= n <= 0x200a
    ||| n == 0x2028
    ||| n == 0x2029
    ||| n == 0x202f
    ||| n == 0x205f
    ||| n == 0x3000
}

/// Whether a character is white space.
fn is_whitespace(c: char) -> (space: bool)
    ensures
        space == is_space(c),
{
    let n: u32 = c as u32;
    (0x9 <= n && n <= 0xd) || n == 0x20 || n == 0x85 || n == 0xa0 || n == 0x1680 || (0x2000 <= n
        && n <= 0x200a) || n == 0x2028 || n == 0x2029 || n == 0x202f || n == 0x205f || n == 0x3000
}

/// The text without the white space at its start.
pub open spec fn trim_start(text: Seq<char>) -> Seq<char>
    decreases text.len(),
{
    if text.len() > 0 && is_space(text[0]) {
        trim_start(text.subrange(1, text.len() as int))
    } else {
        text
    }
}

/// The text without the white space at its end.
pub open spec fn trim_end(text: Seq<char>) -> Seq<char>
    decreases text.len(),
{
    if text.len() > 0 && is_space(text.last()) {
        trim_end(text.drop_last())
    } else {
        text
    }
}

/// The text without the white space around it.
pub open spec fn trim(text: Seq<char>) -> Seq<char> {
    trim_end(trim_start(text))
}

/// Where `c` occurs first in `text`; the length where it does not.
pub open spec fn first_of(text: Seq<char>, c: char) -> int
    decreases text.len(),
{
    if text.len() == 0 || text[0] == c {
        0
    } else {
        1 + first_of(text.subrange(1, text.len() as int), c)
    }
}

/// The value of an item, where its key is `key`.
pub open spec fn item_value(item: Seq<char>, key: Seq<char>) -> Option<Seq<char>> {
    let split = first_of(item, '=');
    if split < item.len() && trim(item.subrange(0, split)) == key {
        Some(trim(item.subrange(split + 1, item.len() as int)))
    } else {
        None
    }
}

/// The value of the first item of `baggage` whose key is `key`. Items without `=` are skipped.
pub open spec fn value_of(baggage: Seq<char>, key: Seq<char>) -> Option<Seq<char>>
    decreases baggage.len(),
{
    let end = first_of(baggage, ',');
    if end < 0 || end > baggage.len() {
        None
    } else {
        match item_value(baggage.subrange(0, end), key) {
            Some(value) => Some(value),
            None => if end < baggage.len() {
                value_of(baggage.subrange(end + 1, baggage.len() as int), key)
            } else {
                None
            },
        }
    }
}

proof fn first_of_fits(text: Seq<char>, c: char)
    ensures
        0 <= first_of(text, c) <= text.len(),
    decreases text.len(),
{
    if text.len() > 0 && text[0] != c {
        first_of_fits(text.subrange(1, text.len() as int), c);
    }
}

fn chars_of(text: &str) -> (chars: Vec<char>)
    ensures
        chars@ == text@,
{
    let mut chars: Vec<char> = Vec::new();
    let n: usize = text.unicode_len();
    let mut i: usize = 0;
    while i < n
        invariant
            i <= n,
            n == text@.len(),
            chars@ =~= text@.subrange(0, i as int),
        decreases n - i,
    {
        chars.push(text.get_char(i));
        i = i + 1;
    }
    chars
}

fn find_from(chars: &Vec<char>, start: usize, end: usize, c: char) -> (place: usize)
    requires
        start <= end <= chars@.len(),
    ensures
        start <= place <= end,
        place - start == first_of(chars@.subrange(start as int, end as int), c),
{
    let mut i: usize = start;
    while i < end
        invariant
            start <= i <= end <= chars@.len(),
            first_of(chars@.subrange(start as int, end as int), c) == i - start + first_of(
                chars@.subrange(i as int, end as int),
                c,
            ),
        decreases end - i,
    {
        let ghost rest = chars@.subrange(i as int, end as int);
        assert(rest[0] == chars@[i as int]);
        assert(rest.subrange(1, rest.len() as int) =~= chars@.subrange(i + 1, end as int));
        if chars[i] == c {
            return i;
        }
        i = i + 1;
    }
    i
}

fn trimmed(chars: &Vec<char>, start: usize, end: usize) -> (bounds: (usize, usize))
    requires
        start <= end <= chars@.len(),
    ensures
        start <= bounds.0 <= bounds.1 <= end,
        chars@.subrange(bounds.0 as int, bounds.1 as int) == trim(
            chars@.subrange(start as int, end as int),
        ),
{
    let ghost all = chars@.subrange(start as int, end as int);
    let mut from: usize = start;
    while from < end && is_whitespace(chars[from])
        invariant
            start <= from <= end <= chars@.len(),
            trim_start(all) == trim_start(chars@.subrange(from as int, end as int)),
        decreases end - from,
    {
        let ghost rest = chars@.subrange(from as int, end as int);
        assert(rest[0] == chars@[from as int]);
        assert(rest.subrange(1, rest.len() as int) =~= chars@.subrange(from + 1, end as int));
        from = from + 1;
    }
    assert(from < end ==> chars@.subrange(from as int, end as int)[0] == chars@[from as int]);
    assert(trim_start(all) == chars@.subrange(from as int, end as int));
    let mut to: usize = end;
    while from < to && is_whitespace(chars[to - 1])
        invariant
            start <= from <= to <= end <= chars@.len(),
            trim_end(trim_start(all)) == trim_end(chars@.subrange(from as int, to as int)),
        decreases to - from,
    {
        let ghost rest = chars@.subrange(from as int, to as int);
        assert(rest.last() == chars@[to - 1]);
        assert(rest.drop_last() =~= chars@.subrange(from as int, to - 1));
        to = to - 1;
    }
    assert(from < to ==> chars@.subrange(from as int, to as int).last() == chars@[to - 1]);
    (from, to)
}

fn same_text(chars: &Vec<char>, start: usize, end: usize, text: &Vec<char>) -> (same: bool)
    requires
        start <= end <= chars@.len(),
    ensures
        same == (chars@.subrange(start as int, end as int) == text@),
{
    if text.len() != end - start {
        return false;
    }
    assert(chars.len() == chars@.len());
    let mut i: usize = 0;
    while i < text.len()
        invariant
            i <= text@.len(),
            text@.len() == end - start,
            start <= end <= chars@.len(),
            chars@.len() <= usize::MAX,
            forall|j: int| 0 <= j < i ==> chars@[start + j] == text@[j],
        decreases text@.len() - i,
    {
        if chars[start + i] != text[i] {
            assert(chars@.subrange(start as int, end as int)[i as int] != text@[i as int]);
            return false;
        }
        i = i + 1;
    }
    assert(chars@.subrange(start as int, end as int) =~= text@);
    true
}

/// The first item of a list whose items are separated by commas, without the white space around
/// it.
pub open spec fn first_item(list: Seq<char>) -> Seq<char> {
    trim(list.subrange(0, first_of(list, ',')))
}

/// The first item of a list whose items are separated by commas.
pub fn first_list_item(list: &str) -> (item: String)
    ensures
        item@ == first_item(list@),
{
    let chars: Vec<char> = chars_of(list);
    assert(chars@.subrange(0, chars@.len() as int) =~= chars@);
    let end: usize = find_from(&chars, 0, chars.len(), ',');
    let (from, to) = trimmed(&chars, 0, end);
    list.substring_char(from, to).to_string()
}

/// The value of the first item of `baggage` whose key is `key`.
pub fn baggage_value(baggage: &str, key: &str) -> (value: Option<String>)
    ensures
        match value {
            Some(value) => value_of(baggage@, key@) == Some(value@),
            None => value_of(baggage@, key@) is None,
        },
{
    let chars: Vec<char> = chars_of(baggage);
    let wanted: Vec<char> = chars_of(key);
    let n: usize = chars.len();
    let mut start: usize = 0;
    assert(chars@.subrange(0, n as int) =~= chars@);
    loop
        invariant
            start <= n,
            n == chars@.len(),
            chars@ == baggage@,
            wanted@ == key@,
            value_of(baggage@, key@) == value_of(chars@.subrange(start as int, n as int), key@),
        decreases n - start,
    {
        let ghost rest = chars@.subrange(start as int, n as int);
        let end: usize = find_from(&chars, start, n, ',');
        assert(rest.subrange(0, end - start) =~= chars@.subrange(start as int, end as int));
        let split: usize = find_from(&chars, start, end, '=');
        let ghost item = chars@.subrange(start as int, end as int);
        proof {
            first_of_fits(rest, ',');
        }
        if split < end {
            assert(item.subrange(0, split - start) =~= chars@.subrange(
                start as int,
                split as int,
            ));
            assert(item.subrange(split - start + 1, item.len() as int) =~= chars@.subrange(
                split + 1,
                end as int,
            ));
            let (from, to) = trimmed(&chars, start, split);
            if same_text(&chars, from, to, &wanted) {
                let (from, to) = trimmed(&chars, split + 1, end);
                return Some(baggage.substring_char(from, to).to_string());
            }
        }
        if end == n {
            return None;
        }
        assert(rest.subrange(end - start + 1, rest.len() as int) =~= chars@.subrange(
            end + 1,
            n as int,
        ));
        start = end + 1;
    }
}

} // verus!
