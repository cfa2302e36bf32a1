//! What holds of identities and of node names and paths, character by character.

use crate::discovery_laws::{lemma_find_after, lemma_lines_append};
use crate::identity::{
    field_is, fields, find, hex_digit, hex_value, id_key, identifies, ids, is_hex, is_hex_digit,
    lemma_find, lemma_ids_append, lines, without_carriage_return,
};
use crate::node::{ascii, is_node_name, is_node_path, node_path, uevent_path};
use vstd::prelude::*;

verus! {

/// Whether a character is the digit, a letter in either case.
pub open spec fn same_digit(c: char, digit: char) -> bool {
    ||| c == digit
    ||| digit == 'A' && c == 'a'
    ||| digit == 'B' && c == 'b'
    ||| digit == 'C' && c == 'c'
    ||| digit == 'D' && c == 'd'
    ||| digit == 'E' && c == 'e'
    ||| digit == 'F' && c == 'f'
}

/// Whether a field is those digits, after any number of zeros.
pub open spec fn spells(field: Seq<char>, digits: Seq<char>) -> bool {
    let zeros = field.len() - digits.len();
    &&& zeros >= 0
    &&& forall|i: int| 0 <= i < zeros ==> #[trigger] field[i] == '0'
    &&& forall|i: int|
        zeros <= i < field.len() ==> same_digit(#[trigger] field[i], digits[i - zeros])
}

proof fn lemma_zero(field: Seq<char>)
    ensures
        (is_hex(field) || field.len() == 0) && hex_value(field) == 0 <==> forall|i: int|
            0 <= i < field.len() ==> #[trigger] field[i] == '0',
    decreases field.len(),
{
    if field.len() > 0 {
        let rest = field.drop_last();
        lemma_zero(rest);
        if forall|i: int| 0 <= i < field.len() ==> #[trigger] field[i] == '0' {
            assert forall|i: int| 0 <= i < rest.len() implies #[trigger] rest[i] == '0' by {
                assert(rest[i] == field[i]);
            }
        }
        if is_hex(field) && hex_value(field) == 0 {
            assert forall|i: int| 0 <= i < rest.len() implies is_hex_digit(#[trigger] rest[i]) by {
                assert(rest[i] == field[i]);
            }
            assert forall|i: int| 0 <= i < field.len() implies #[trigger] field[i] == '0' by {
                if i < rest.len() {
                    assert(rest[i] == field[i]);
                } else {
                    assert(is_hex_digit(field[i]));
                }
            }
        }
    }
}

/// Whether a field, perhaps empty, is of hexadecimal digits and has a value.
spec fn reads(field: Seq<char>, value: nat) -> bool {
    (is_hex(field) || field.len() == 0) && hex_value(field) == value
}

proof fn lemma_reads_last(field: Seq<char>, value: nat)
    requires
        value > 0,
    ensures
        reads(field, value) <==> {
            &&& field.len() > 0
            &&& is_hex_digit(field.last())
            &&& hex_digit(field.last()) == value % 16
            &&& reads(field.drop_last(), value / 16)
        },
{
    if field.len() > 0 {
        let rest = field.drop_last();
        if is_hex(field) {
            assert forall|i: int| 0 <= i < rest.len() implies is_hex_digit(#[trigger] rest[i]) by {
                assert(rest[i] == field[i]);
            }
            assert(is_hex_digit(field[field.len() - 1]));
        }
        if (is_hex(rest) || rest.len() == 0) && is_hex_digit(field.last()) {
            assert forall|i: int| 0 <= i < field.len() implies is_hex_digit(
                #[trigger] field[i],
            ) by {
                if i < rest.len() {
                    assert(rest[i] == field[i]);
                }
            }
            assert(is_hex(field));
        }
        if is_hex_digit(field.last()) {
            assert(hex_digit(field.last()) < 16);
        }
    }
}

proof fn lemma_spells_last(field: Seq<char>, digits: Seq<char>)
    requires
        digits.len() > 0,
    ensures
        spells(field, digits) <==> {
            &&& field.len() > 0
            &&& same_digit(field.last(), digits.last())
            &&& spells(field.drop_last(), digits.drop_last())
        },
{
    let rest = field.drop_last();
    let zeros = field.len() - digits.len();
    if field.len() > 0 {
        if spells(field, digits) {
            assert forall|i: int| 0 <= i < zeros implies #[trigger] rest[i] == '0' by {
                assert(rest[i] == field[i]);
            }
            assert forall|i: int| zeros <= i < rest.len() implies same_digit(
                #[trigger] rest[i],
                digits.drop_last()[i - zeros],
            ) by {
                assert(rest[i] == field[i]);
            }
            assert(same_digit(field[field.len() - 1], digits[digits.len() - 1]));
        }
        if same_digit(field.last(), digits.last()) && spells(rest, digits.drop_last()) {
            assert forall|i: int| 0 <= i < zeros implies #[trigger] field[i] == '0' by {
                assert(rest[i] == field[i]);
            }
            assert forall|i: int| zeros <= i < field.len() implies same_digit(
                #[trigger] field[i],
                digits[i - zeros],
            ) by {
                if i < rest.len() {
                    assert(rest[i] == field[i]);
                    assert(digits.drop_last()[i - zeros] == digits[i - zeros]);
                }
            }
        }
    }
}

proof fn lemma_spells_nothing(field: Seq<char>)
    ensures
        spells(field, seq![]) <==> reads(field, 0),
{
    lemma_zero(field);
}

/// A field is one of the three numbers of the supported device exactly if it spells it:
/// any zeros, then the digits, letters in either case, and nothing else.
pub proof fn law_numbers_are_spelled_out(field: Seq<char>)
    ensures
        field_is(field, 3) <==> spells(field, seq!['3']),
        field_is(field, 0x2c30) <==> spells(field, seq!['2', 'C', '3', '0']),
        field_is(field, 0x1050) <==> spells(field, seq!['1', '0', '5', '0']),
{
    let f1 = field.drop_last();
    let f2 = f1.drop_last();
    let f3 = f2.drop_last();
    let f4 = f3.drop_last();
    lemma_reads_last(field, 3);
    lemma_spells_last(field, seq!['3']);
    assert(seq!['3'].drop_last() =~= seq![]);
    lemma_spells_nothing(f1);
    assert(reads(field, 3) <==> field_is(field, 3));

    lemma_reads_last(field, 0x2c30);
    lemma_reads_last(f1, 0x2c3);
    lemma_reads_last(f2, 0x2c);
    lemma_reads_last(f3, 0x2);
    lemma_spells_last(field, seq!['2', 'C', '3', '0']);
    assert(seq!['2', 'C', '3', '0'].drop_last() =~= seq!['2', 'C', '3']);
    lemma_spells_last(f1, seq!['2', 'C', '3']);
    assert(seq!['2', 'C', '3'].drop_last() =~= seq!['2', 'C']);
    lemma_spells_last(f2, seq!['2', 'C']);
    assert(seq!['2', 'C'].drop_last() =~= seq!['2']);
    lemma_spells_last(f3, seq!['2']);
    assert(seq!['2'].drop_last() =~= seq![]);
    lemma_spells_nothing(f4);
    assert(reads(field, 0x2c30) <==> field_is(field, 0x2c30));

    lemma_reads_last(field, 0x1050);
    lemma_reads_last(f1, 0x105);
    lemma_reads_last(f2, 0x10);
    lemma_reads_last(f3, 0x1);
    lemma_spells_last(field, seq!['1', '0', '5', '0']);
    assert(seq!['1', '0', '5', '0'].drop_last() =~= seq!['1', '0', '5']);
    lemma_spells_last(f1, seq!['1', '0', '5']);
    assert(seq!['1', '0', '5'].drop_last() =~= seq!['1', '0']);
    lemma_spells_last(f2, seq!['1', '0']);
    assert(seq!['1', '0'].drop_last() =~= seq!['1']);
    lemma_spells_last(f3, seq!['1']);
    assert(seq!['1'].drop_last() =~= seq![]);
    assert(reads(field, 0x1050) <==> field_is(field, 0x1050));
}

proof fn lemma_key()
    ensures
        "HID_ID="@ == id_key(),
        id_key().len() == 7,
{
    reveal_strlit("HID_ID=");
    assert("HID_ID="@ =~= id_key());
}

proof fn lemma_identity_line(id: Seq<char>, ending: Seq<char>)
    requires
        !id.contains('\n'),
        id.len() == 0 || id.last() != '\r',
        ending == seq!['\n'] || ending == seq!['\r', '\n'],
    ensures
        ids(lines("HID_ID="@ + id + ending)) == seq![id],
{
    lemma_key();
    let text = "HID_ID="@ + id + ending;
    let raw = if ending == seq!['\n'] {
        "HID_ID="@ + id
    } else {
        ("HID_ID="@ + id).push('\r')
    };
    assert forall|i: int| 0 <= i < raw.len() implies raw[i] != '\n' by {
        if 7 <= i < 7 + id.len() {
            assert(raw[i] == id[i - 7]);
            assert(id.contains(id[i - 7]));
        }
    }
    assert(!raw.contains('\n'));
    assert(text =~= raw + seq!['\n'] + seq![]);
    lemma_find_after(raw, '\n', seq![]);
    assert(text.take(raw.len() as int) =~= raw);
    assert(text.skip(raw.len() as int + 1) =~= seq![]);
    let line = without_carriage_return(raw);
    assert(line =~= "HID_ID="@ + id);
    assert(lines(Seq::<char>::empty()) =~= seq![]);
    assert(lines(text) =~= seq![line]);
    assert(id_key() =~= line.subrange(0, 7));
    assert(line.skip(7) =~= id);
    assert(seq![line].skip(1) =~= seq![]);
    assert(ids(seq![line]) =~= seq![line.skip(7)] + ids(seq![]));
}

proof fn lemma_three_fields(a: Seq<char>, b: Seq<char>, c: Seq<char>)
    requires
        !a.contains(':'),
        !b.contains(':'),
        !c.contains(':'),
    ensures
        fields(a + seq![':'] + (b + seq![':'] + c)) == seq![a, b, c],
{
    let tail = b + seq![':'] + c;
    let whole = a + seq![':'] + tail;
    lemma_find_after(a, ':', tail);
    lemma_find_after(b, ':', c);
    assert forall|i: int| 0 <= i < c.len() implies c[i] != ':' by {
        assert(c.contains(c[i]));
    }
    lemma_find(c, ':', c.len() as int);
    assert(whole.take(a.len() as int) =~= a);
    assert(whole.skip(a.len() as int + 1) =~= tail);
    assert(tail.take(b.len() as int) =~= b);
    assert(tail.skip(b.len() as int + 1) =~= c);
    assert(fields(c) == seq![c]);
    assert(fields(tail) =~= seq![b, c]);
    assert(fields(whole) =~= seq![a, b, c]);
}

/// A text with one `HID_ID` line of three fields identifies the device exactly if these
/// spell `3`, `2C30` and `1050`.
pub proof fn law_only_the_supported_numbers_identify(
    bus: Seq<char>,
    vendor: Seq<char>,
    product: Seq<char>,
    ending: Seq<char>,
)
    requires
        !bus.contains(':'),
        !vendor.contains(':'),
        !product.contains(':'),
        !bus.contains('\n'),
        !vendor.contains('\n'),
        !product.contains('\n'),
        product.len() == 0 || product.last() != '\r',
        ending == seq!['\n'] || ending == seq!['\r', '\n'],
    ensures
        identifies("HID_ID="@ + (bus + seq![':'] + (vendor + seq![':'] + product)) + ending) <==> {
            &&& spells(bus, seq!['3'])
            &&& spells(vendor, seq!['2', 'C', '3', '0'])
            &&& spells(product, seq!['1', '0', '5', '0'])
        },
{
    let id = bus + seq![':'] + (vendor + seq![':'] + product);
    assert forall|i: int| 0 <= i < id.len() implies id[i] != '\n' by {
        let second = bus.len() + 1;
        let third = second + vendor.len() + 1;
        if i < bus.len() {
            assert(bus.contains(bus[i]));
        } else if second <= i < second + vendor.len() {
            assert(vendor.contains(vendor[i - second]));
        } else if third <= i {
            assert(id[i] == product[i - third]);
            assert(product.contains(product[i - third]));
        }
    }
    assert(!id.contains('\n'));
    assert(id.last() == if product.len() == 0 {
        ':'
    } else {
        product.last()
    });
    lemma_identity_line(id, ending);
    lemma_three_fields(bus, vendor, product);
    law_numbers_are_spelled_out(bus);
    law_numbers_are_spelled_out(vendor);
    law_numbers_are_spelled_out(product);
}

/// The number of colons.
pub open spec fn colons(text: Seq<char>) -> nat
    decreases text.len(),
{
    if text.len() == 0 {
        0
    } else {
        colons(text.skip(1)) + if text[0] == ':' {
            1nat
        } else {
            0nat
        }
    }
}

proof fn lemma_find_in_text(text: Seq<char>, wanted: char)
    ensures
        0 <= find(text, wanted) <= text.len(),
    decreases text.len(),
{
    if text.len() > 0 && text[0] != wanted {
        lemma_find_in_text(text.skip(1), wanted);
    }
}

proof fn lemma_field_count(text: Seq<char>)
    ensures
        fields(text).len() == colons(text) + 1,
    decreases text.len(),
{
    if text.len() > 0 {
        let rest = text.skip(1);
        lemma_field_count(rest);
        if text[0] == ':' {
            assert(find(text, ':') == 0);
        } else {
            let end = find(rest, ':');
            lemma_find_in_text(rest, ':');
            if 0 <= end < rest.len() {
                assert(text.skip(end + 1 + 1) =~= rest.skip(end + 1));
            }
        }
    }
}

/// A `HID_ID` line with another number of fields than three identifies nothing.
pub proof fn law_three_fields_are_needed(id: Seq<char>, ending: Seq<char>)
    requires
        !id.contains('\n'),
        id.len() == 0 || id.last() != '\r',
        ending == seq!['\n'] || ending == seq!['\r', '\n'],
        colons(id) != 2,
    ensures
        !identifies("HID_ID="@ + id + ending),
{
    lemma_identity_line(id, ending);
    lemma_field_count(id);
}

/// A text with no line at all identifies nothing, and neither does one with two
/// `HID_ID` lines, wherever they are and whatever they say.
pub proof fn law_one_identity_line_is_needed(
    before: Seq<char>,
    first: Seq<char>,
    between: Seq<char>,
    second: Seq<char>,
    after: Seq<char>,
)
    requires
        before.len() == 0 || before.last() == '\n',
        between.len() == 0 || between.last() == '\n',
        !first.contains('\n'),
        !second.contains('\n'),
        first.len() == 0 || first.last() != '\r',
        second.len() == 0 || second.last() != '\r',
    ensures
        !identifies(Seq::<char>::empty()),
        !identifies(
            before + (("HID_ID="@ + first + seq!['\n']) + (between + (("HID_ID="@ + second + seq![
                '\n',
            ]) + after))),
        ),
{
    let one = "HID_ID="@ + first + seq!['\n'];
    let two = "HID_ID="@ + second + seq!['\n'];
    lemma_identity_line(first, seq!['\n']);
    lemma_identity_line(second, seq!['\n']);
    lemma_lines_append(before, one + (between + (two + after)));
    lemma_lines_append(one, between + (two + after));
    lemma_lines_append(between, two + after);
    lemma_lines_append(two, after);
    lemma_ids_append(lines(before), lines(one + (between + (two + after))));
    lemma_ids_append(lines(one), lines(between + (two + after)));
    lemma_ids_append(lines(between), lines(two + after));
    lemma_ids_append(lines(two), lines(after));
}

/// The end of the text ends a line too: a final line feed makes no difference to a
/// text that does not end in a line feed or a carriage return.
pub proof fn law_final_line_feed_is_optional(text: Seq<char>)
    requires
        text.len() > 0,
        text.last() != '\n',
        text.last() != '\r',
    ensures
        identifies(text.push('\n')) == identifies(text),
{
    lemma_final_line_feed(text);
}

proof fn lemma_final_line_feed(text: Seq<char>)
    requires
        text.len() > 0,
        text.last() != '\n',
        text.last() != '\r',
    ensures
        lines(text.push('\n')) == lines(text),
    decreases text.len(),
{
    let longer = text.push('\n');
    if text.contains('\n') {
        crate::discovery_laws::lemma_find_bounds(text, '\n');
        let end = find(text, '\n');
        let first = text.take(end);
        let rest = text.skip(end + 1);
        assert(!first.contains('\n'));
        assert(longer =~= first + seq!['\n'] + rest.push('\n'));
        lemma_find_after(first, '\n', rest.push('\n'));
        assert(longer.take(end) =~= first);
        assert(longer.skip(end + 1) =~= rest.push('\n'));
        assert(rest.last() == text.last());
        lemma_final_line_feed(rest);
    } else {
        assert(longer =~= text + seq!['\n'] + seq![]);
        lemma_find_after(text, '\n', seq![]);
        assert forall|i: int| 0 <= i < text.len() implies text[i] != '\n' by {
            assert(text.contains(text[i]));
        }
        lemma_find(text, '\n', text.len() as int);
        assert(longer.take(text.len() as int) =~= text);
        assert(longer.skip(text.len() as int + 1) =~= seq![]);
        assert(lines(Seq::<char>::empty()) =~= seq![]);
        assert(lines(longer) =~= seq![text]);
    }
}

/// The bytes of `hidraw`.
pub open spec fn hidraw_bytes() -> Seq<u8> {
    seq![0x68, 0x69, 0x64, 0x72, 0x61, 0x77]
}

/// A node name is `hidraw` and one decimal digit, or a node name and one more: nothing
/// else is one, and whatever is made so is one.
pub proof fn law_node_names_end_in_digits(name: Seq<u8>, byte: u8)
    ensures
        is_node_name(hidraw_bytes().push(byte)) <==> 0x30 <= byte <= 0x39,
        name.len() >= 7 ==> (is_node_name(name.push(byte)) <==> is_node_name(name) && 0x30 <= byte
            <= 0x39),
        is_node_name(name) ==> name.len() >= 7 && name.take(6) == hidraw_bytes(),
{
    let one = hidraw_bytes().push(byte);
    assert(one[6] == byte);
    if name.len() >= 7 {
        let longer = name.push(byte);
        assert(longer[name.len() as int] == byte);
        if is_node_name(longer) {
            assert forall|i: int| 6 <= i < name.len() implies '0' as u8 <= #[trigger] name[i]
                <= '9' as u8 by {
                assert(longer[i] == name[i]);
            }
        }
    }
    if is_node_name(name) {
        assert(name.take(6) =~= hidraw_bytes());
    }
}

/// The path of a node is `/dev/` and its name, character for byte; its identity is read
/// from `device/uevent` under its name in the hidraw class directory. A path of bytes is
/// accepted exactly if it is `/dev/` and a node name.
pub proof fn law_paths_are_direct(name: Seq<u8>, path: Seq<u8>)
    ensures
        ascii(name).len() == name.len(),
        forall|i: int| 0 <= i < name.len() ==> #[trigger] ascii(name)[i] as int == name[i],
        node_path(name) == "/dev/"@ + ascii(name),
        uevent_path(name) == "/sys/class/hidraw/"@ + ascii(name) + "/device/uevent"@,
        is_node_path(seq![0x2f, 0x64, 0x65, 0x76, 0x2f] + name) <==> is_node_name(name),
        is_node_path(path) ==> path == seq![0x2fu8, 0x64, 0x65, 0x76, 0x2f] + path.skip(5),
{
    let direct = seq![0x2fu8, 0x64, 0x65, 0x76, 0x2f] + name;
    assert(direct.skip(5) =~= name);
    if is_node_path(path) {
        assert(path =~= seq![0x2fu8, 0x64, 0x65, 0x76, 0x2f] + path.skip(5));
    }
}

} // verus!
