//! The HID identity that the kernel publishes in a node's `uevent` text.

use vstd::prelude::*;

verus! {

/// HID bus number of USB.
pub const USB_BUS: u32 = 3;

/// USB vendor ID of the supported device.
pub const VENDOR_ID: u32 = 0x2c30;

/// USB product ID of the supported device.
pub const PRODUCT_ID: u32 = 0x1050;

/// Index of the first `wanted` in the text, or its length if there is none.
pub open spec fn find(text: Seq<char>, wanted: char) -> int
    decreases text.len(),
{
    if text.len() == 0 || text[0] == wanted {
        0
    } else {
        1 + find(text.skip(1), wanted)
    }
}

/// The line without a carriage return at its end.
pub open spec fn without_carriage_return(line: Seq<char>) -> Seq<char> {
    if line.len() > 0 && line.last() == '\r' {
        line.drop_last()
    } else {
        line
    }
}

/// The lines of a text, each ended by a line feed, by a carriage return and a line
/// feed, or by the end of the text.
pub open spec fn lines(text: Seq<char>) -> Seq<Seq<char>>
    decreases text.len(),
{
    let end = find(text, '\n');
    if text.len() == 0 {
        seq![]
    } else if 0 <= end < text.len() {
        seq![without_carriage_return(text.take(end))] + lines(text.skip(end + 1))
    } else {
        seq![text]
    }
}

/// The parts between colons; one more than there are colons.
pub open spec fn fields(id: Seq<char>) -> Seq<Seq<char>>
    decreases id.len(),
{
    let end = find(id, ':');
    if 0 <= end < id.len() {
        seq![id.take(end)] + fields(id.skip(end + 1))
    } else {
        seq![id]
    }
}

/// `HID_ID=`, which starts the line that identifies a device.
pub open spec fn id_key() -> Seq<char> {
    seq!['H', 'I', 'D', '_', 'I', 'D', '=']
}

/// What follows `HID_ID=` in each line that starts with it.
pub open spec fn ids(text: Seq<Seq<char>>) -> Seq<Seq<char>>
    decreases text.len(),
{
    if text.len() == 0 {
        seq![]
    } else if id_key().is_prefix_of(text[0]) {
        seq![text[0].skip(id_key().len() as int)] + ids(text.skip(1))
    } else {
        ids(text.skip(1))
    }
}

/// A hexadecimal digit, in either case.
pub open spec fn is_hex_digit(c: char) -> bool {
    ('0' <= c <= '9') || ('a' <= c <= 'f') || ('A' <= c <= 'F')
}

/// The value of a hexadecimal digit.
pub open spec fn hex_digit(c: char) -> nat {
    if '0' <= c <= '9' {
        (c as int - '0' as int) as nat
    } else if 'a' <= c <= 'f' {
        (c as int - 'a' as int + 10) as nat
    } else {
        (c as int - 'A' as int + 10) as nat
    }
}

/// A nonempty string of hexadecimal digits, without sign or prefix.
pub open spec fn is_hex(field: Seq<char>) -> bool {
    field.len() > 0 && forall|i: int| 0 <= i < field.len() ==> is_hex_digit(#[trigger] field[i])
}

/// The number that a string of hexadecimal digits stands for.
pub open spec fn hex_value(field: Seq<char>) -> nat
    decreases field.len(),
{
    if field.len() == 0 {
        0
    } else {
        hex_value(field.drop_last()) * 16 + hex_digit(field.last())
    }
}

/// Whether a field is the hexadecimal form of `value`, with any leading zeros.
pub open spec fn field_is(field: Seq<char>, value: u32) -> bool {
    is_hex(field) && hex_value(field) == value
}

/// Whether the text has exactly one `HID_ID` line, and its three fields are the USB
/// bus, the vendor ID and the product ID of the supported device.
pub open spec fn identifies(text: Seq<char>) -> bool {
    let found = ids(lines(text));
    &&& found.len() == 1
    &&& fields(found[0]).len() == 3
    &&& field_is(fields(found[0])[0], USB_BUS)
    &&& field_is(fields(found[0])[1], VENDOR_ID)
    &&& field_is(fields(found[0])[2], PRODUCT_ID)
}

/// The first of its kind is where it is found.
pub proof fn lemma_find(text: Seq<char>, wanted: char, index: int)
    requires
        0 <= index <= text.len(),
        index < text.len() ==> text[index] == wanted,
        forall|i: int| 0 <= i < index ==> text[i] != wanted,
    ensures
        find(text, wanted) == index,
    decreases text.len(),
{
    if index > 0 {
        assert forall|i: int| 0 <= i < index - 1 implies text.skip(1)[i] != wanted by {
            assert(text.skip(1)[i] == text[i + 1]);
        }
        lemma_find(text.skip(1), wanted, index - 1);
    }
}

/// Characters of the text, addressable by index.
fn characters(text: &str) -> (characters: Vec<char>)
    ensures
        characters@ == text@,
{
    let mut characters: Vec<char> = Vec::new();
    for c in iter: text.chars()
        invariant
            iter.seq() == text@,
            characters@ == text@.take(iter.index() as int),
    {
        characters.push(c);
        assert(text@.take(iter.index() + 1) =~= text@.take(iter.index() as int).push(c));
    }
    assert(text@.take(text@.len() as int) =~= text@);
    characters
}

fn position(text: &Vec<char>, from: usize, to: usize, wanted: char) -> (index: usize)
    requires
        from <= to <= text@.len(),
    ensures
        from <= index <= to,
        find(text@.subrange(from as int, to as int), wanted) == index - from,
{
    let mut index: usize = from;
    while index < to && text[index] != wanted
        invariant
            from <= index <= to <= text@.len(),
            forall|i: int| from <= i < index ==> text@[i] != wanted,
        decreases to - index,
    {
        index += 1;
    }
    proof {
        lemma_find(text@.subrange(from as int, to as int), wanted, index - from);
    }
    index
}

fn hex_digit_value(c: char) -> (value: Option<u32>)
    ensures
        match value {
            Some(digit) => is_hex_digit(c) && digit == hex_digit(c) && digit < 16,
            None => !is_hex_digit(c),
        },
{
    if '0' <= c && c <= '9' {
        Some(c as u32 - '0' as u32)
    } else if 'a' <= c && c <= 'f' {
        Some(c as u32 - 'a' as u32 + 10)
    } else if 'A' <= c && c <= 'F' {
        Some(c as u32 - 'A' as u32 + 10)
    } else {
        None
    }
}

/// Whether the characters from `from` to `to` are the hexadecimal form of `value`.
fn matches_field(text: &Vec<char>, from: usize, to: usize, value: u32) -> (same: bool)
    requires
        from <= to <= text@.len(),
    ensures
        same == field_is(text@.subrange(from as int, to as int), value),
{
    let ghost field = text@.subrange(from as int, to as int);
    if from == to {
        return false;
    }
    let mut number: u64 = 0;
    let mut overflow: bool = false;
    let mut index: usize = from;
    while index < to
        invariant
            from <= index <= to <= text@.len(),
            field == text@.subrange(from as int, to as int),
            forall|i: int| 0 <= i < index - from ==> is_hex_digit(#[trigger] field[i]),
            overflow ==> hex_value(field.take(index - from)) > u32::MAX,
            !overflow ==> hex_value(field.take(index - from)) == number && number <= u32::MAX,
        decreases to - index,
    {
        match hex_digit_value(text[index]) {
            None => {
                assert(!is_hex_digit(field[index - from]));
                return false;
            },
            Some(digit) => {
                assert(field.take(index + 1 - from).drop_last() =~= field.take(index - from));
                assert(field[index - from] == text@[index as int]);
                if !overflow {
                    number = number * 16 + digit as u64;
                    overflow = number > 0xffff_ffff;
                }
            },
        }
        index += 1;
    }
    assert(field.take(index - from) =~= field);
    !overflow && number == value as u64
}

/// Whether the characters from `from` to `to` are `HID_ID=` and more.
fn starts_with_key(text: &Vec<char>, from: usize, to: usize) -> (found: bool)
    requires
        from <= to <= text@.len(),
    ensures
        found == id_key().is_prefix_of(text@.subrange(from as int, to as int)),
{
    let ghost line = text@.subrange(from as int, to as int);
    let key: [char; 7] = ['H', 'I', 'D', '_', 'I', 'D', '='];
    assert(key@ =~= id_key());
    if to - from < 7 {
        return false;
    }
    let mut index: usize = 0;
    while index < 7
        invariant
            index <= 7,
            key@ == id_key(),
            from + 7 <= to <= text@.len(),
            line == text@.subrange(from as int, to as int),
            forall|i: int| 0 <= i < index ==> key@[i] == line[i],
        decreases 7 - index,
    {
        if text[from + index] != key[index] {
            assert(id_key() != line.subrange(0, 7)) by {
                assert(line.subrange(0, 7)[index as int] == line[index as int]);
            }
            return false;
        }
        index += 1;
    }
    assert(id_key() =~= line.subrange(0, 7));
    true
}

/// Whether the characters from `from` to `to` are the three fields of the supported
/// device.
fn matches_id(text: &Vec<char>, from: usize, to: usize) -> (same: bool)
    requires
        from <= to <= text@.len(),
    ensures
        ({
            let found = fields(text@.subrange(from as int, to as int));
            same == (found.len() == 3 && field_is(found[0], USB_BUS) && field_is(
                found[1],
                VENDOR_ID,
            ) && field_is(found[2], PRODUCT_ID))
        }),
{
    let ghost whole = text@.subrange(from as int, to as int);
    proof {
        reveal_with_fuel(fields, 4);
    }
    let first: usize = position(text, from, to, ':');
    if first == to {
        return false;
    }
    let ghost after_first = text@.subrange(first + 1, to as int);
    assert(whole.take(first - from) =~= text@.subrange(from as int, first as int));
    assert(whole.skip(first - from + 1) =~= after_first);
    let second: usize = position(text, first + 1, to, ':');
    if second == to {
        return false;
    }
    let ghost after_second = text@.subrange(second + 1, to as int);
    assert(after_first.take(second - first - 1) =~= text@.subrange(first + 1, second as int));
    assert(after_first.skip(second - first) =~= after_second);
    let third: usize = position(text, second + 1, to, ':');
    if third != to {
        assert(fields(after_second.skip(third - second)).len() >= 1);
        return false;
    }
    matches_field(text, from, first, USB_BUS) && matches_field(text, first + 1, second, VENDOR_ID)
        && matches_field(text, second + 1, to, PRODUCT_ID)
}

/// The identities of two groups of lines are those of the one, then of the other.
pub proof fn lemma_ids_append(head: Seq<Seq<char>>, tail: Seq<Seq<char>>)
    ensures
        ids(head + tail) == ids(head) + ids(tail),
    decreases head.len(),
{
    if head.len() == 0 {
        assert(head + tail =~= tail);
        assert(ids(head) + ids(tail) =~= ids(tail));
    } else {
        assert((head + tail).skip(1) =~= head.skip(1) + tail);
        lemma_ids_append(head.skip(1), tail);
        assert(ids(head + tail) =~= ids(head) + ids(tail));
    }
}

/// Whether a `uevent` text identifies the supported device.
///
/// Names and other lines are never used.
pub fn matching_identity(uevent: &str) -> (same: bool)
    ensures
        same == identifies(uevent@),
{
    let text = characters(uevent);
    let length: usize = text.len();
    let mut start: usize = 0;
    let mut found: bool = false;
    let mut id_start: usize = 0;
    let mut id_end: usize = 0;
    let ghost mut seen: Seq<Seq<char>> = seq![];
    assert(uevent@.skip(0) =~= uevent@);
    assert(seen + ids(lines(uevent@)) =~= ids(lines(uevent@)));
    while start < length
        invariant
            start <= length,
            length == text@.len(),
            text@ == uevent@,
            ids(lines(uevent@)) == seen + ids(lines(uevent@.skip(start as int))),
            id_start <= id_end <= length,
            seen == (if found {
                seq![text@.subrange(id_start as int, id_end as int)]
            } else {
                seq![]
            }),
        decreases length - start,
    {
        let ghost rest = uevent@.skip(start as int);
        let newline: usize = position(&text, start, length, '\n');
        assert(text@.subrange(start as int, length as int) =~= rest);
        let mut end: usize = newline;
        if newline < length && newline > start && text[newline - 1] == '\r' {
            end = newline - 1;
        }
        let ghost line = text@.subrange(start as int, end as int);
        let next: usize = if newline < length {
            newline + 1
        } else {
            length
        };
        proof {
            if newline < length {
                let raw = rest.take(newline - start);
                assert(without_carriage_return(raw) =~= line);
                assert(rest.skip(newline - start + 1) =~= uevent@.skip(next as int));
            } else {
                assert(line =~= rest);
                assert(uevent@.skip(next as int) =~= seq![]);
                assert(lines(rest) =~= seq![line] + lines(uevent@.skip(next as int)));
            }
            assert(lines(rest) == seq![line] + lines(uevent@.skip(next as int)));
            lemma_ids_append(seq![line], lines(uevent@.skip(next as int)));
            reveal_with_fuel(ids, 2);
            assert(seq![line].skip(1) =~= seq![]);
        }
        if starts_with_key(&text, start, end) {
            proof {
                assert(ids(seq![line]) =~= seq![line.skip(7)]);
                assert(line.skip(7) =~= text@.subrange(start + 7, end as int));
                seen = seen.push(line.skip(7));
                assert(ids(lines(uevent@)) =~= seen + ids(lines(uevent@.skip(next as int))));
            }
            if found {
                return false;
            }
            found = true;
            id_start = start + 7;
            id_end = end;
            assert(seen =~= seq![text@.subrange(id_start as int, id_end as int)]);
        } else {
            assert(ids(seq![line]) =~= seq![]);
            assert(ids(lines(uevent@)) =~= seen + ids(lines(uevent@.skip(next as int))));
        }
        start = next;
    }
    assert(uevent@.skip(start as int) =~= seq![]);
    assert(ids(lines(uevent@)) =~= seen);
    found && matches_id(&text, id_start, id_end)
}

} // verus!
