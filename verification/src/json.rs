//! JSON strings, as the experiment harness writes them.

use vstd::prelude::*;
use vstd::string::*;

use crate::text::{byte_strings, characters, lossy, lossy_text, optional_text, texts};

verus! {

/// The lower-case hexadecimal digit of a number below sixteen.
pub open spec fn hex_digit(value: nat) -> char {
    if value < 10 {
        (48 + value) as char
    } else {
        (87 + value) as char
    }
}

/// The low `width` hexadecimal digits of a number, most significant first.
pub open spec fn hex_digits(value: nat, width: nat) -> Seq<char>
    decreases width,
{
    if width == 0 {
        Seq::empty()
    } else {
        hex_digits(value / 16, (width - 1) as nat).push(hex_digit(value % 16))
    }
}

/// Two hexadecimal digits for each byte.
pub open spec fn hex_text(bytes: Seq<u8>) -> Seq<char>
    decreases bytes.len(),
{
    if bytes.len() == 0 {
        Seq::empty()
    } else {
        hex_text(bytes.drop_last()) + hex_digits(bytes.last() as nat, 2)
    }
}

/// One character as it stands inside a JSON string.
pub open spec fn escaped_letter(letter: char) -> Seq<char> {
    if letter == '"' {
        seq!['\\', '"']
    } else if letter == '\\' {
        seq!['\\', '\\']
    } else if letter == '\n' {
        seq!['\\', 'n']
    } else if letter == '\r' {
        seq!['\\', 'r']
    } else if letter == '\t' {
        seq!['\\', 't']
    } else if (letter as u32) < 0x20 {
        seq!['\\', 'u'] + hex_digits(letter as nat, 4)
    } else {
        seq![letter]
    }
}

/// A text as it stands inside a JSON string.
pub open spec fn escaped_text(text: Seq<char>) -> Seq<char>
    decreases text.len(),
{
    if text.len() == 0 {
        Seq::empty()
    } else {
        escaped_letter(text[0]) + escaped_text(text.skip(1))
    }
}

/// A text as a JSON string.
pub open spec fn json_string(text: Seq<char>) -> Seq<char> {
    seq!['"'] + escaped_text(text) + seq!['"']
}

/// An optional text as a JSON value.
pub open spec fn json_optional(text: Option<Seq<char>>) -> Seq<char> {
    match text {
        Some(text) => json_string(text),
        None => "null"@,
    }
}

/// The JSON strings of the first `count` texts, separated by commas.
pub open spec fn json_items(values: Seq<Seq<char>>, count: int) -> Seq<char>
    decreases count,
{
    if count <= 0 {
        Seq::empty()
    } else if count == 1 {
        json_string(values[0])
    } else {
        json_items(values, count - 1) + seq![','] + json_string(values[count - 1])
    }
}

/// A list of texts as a JSON array.
pub open spec fn json_array(values: Seq<Seq<char>>) -> Seq<char> {
    seq!['['] + json_items(values, values.len() as int) + seq![']']
}

/// The hexadecimal text of each byte string.
pub open spec fn hex_texts(values: Seq<Seq<u8>>) -> Seq<Seq<char>> {
    values.map_values(|value: Seq<u8>| hex_text(value))
}

/// The displayed text of each byte string.
pub open spec fn displayed_texts(values: Seq<Seq<u8>>) -> Seq<Seq<char>> {
    values.map_values(|value: Seq<u8>| lossy_text(value))
}

fn hex_letter(value: u8) -> (letter: char)
    requires
        value < 16,
    ensures
        letter == hex_digit(value as nat),
{
    let code: u8 = if value < 10 {
        48 + value
    } else {
        87 + value
    };
    code as char
}

/// Appends the low `width` hexadecimal digits of a number.
pub fn push_hex_digits(text: &mut String, value: u64, width: usize)
    ensures
        final(text)@ == old(text)@ + hex_digits(value as nat, width as nat),
    decreases width,
{
    if width == 0 {
        assert(text@ =~= text@ + hex_digits(value as nat, 0));
        return;
    }
    let ghost before = text@;
    push_hex_digits(text, value / 16, width - 1);
    let low: u64 = value % 16;
    text.push(hex_letter(low as u8));
    assert(text@ =~= before + hex_digits(value as nat, width as nat));
}

/// Writes bytes in lower-case hexadecimal.
pub fn hex(bytes: &[u8]) -> (text: String)
    ensures
        text@ == hex_text(bytes@),
{
    let mut text = String::new();
    let mut index: usize = 0;
    assert(bytes@.take(0) =~= Seq::empty());
    while index < bytes.len()
        invariant
            index <= bytes@.len(),
            text@ == hex_text(bytes@.take(index as int)),
        decreases bytes@.len() - index,
    {
        push_hex_digits(&mut text, bytes[index] as u64, 2);
        assert(bytes@.take(index + 1).drop_last() =~= bytes@.take(index as int));
        index = index + 1;
    }
    assert(bytes@.take(index as int) =~= bytes@);
    text
}

proof fn lemma_escaped_push(text: Seq<char>, letter: char)
    ensures
        escaped_text(text.push(letter)) == escaped_text(text) + escaped_letter(letter),
    decreases text.len(),
{
    let longer = text.push(letter);
    if text.len() == 0 {
        assert(longer.skip(1) =~= Seq::empty());
        assert(escaped_text(longer.skip(1)) =~= Seq::empty());
        assert(escaped_text(longer) =~= escaped_text(text) + escaped_letter(letter));
    } else {
        assert(longer.skip(1) =~= text.skip(1).push(letter));
        lemma_escaped_push(text.skip(1), letter);
        assert(escaped_text(longer) =~= escaped_text(text) + escaped_letter(letter));
    }
}

fn push_escaped(json: &mut String, letter: char)
    ensures
        final(json)@ == old(json)@ + escaped_letter(letter),
{
    let ghost before = json@;
    if letter == '"' {
        json.push('\\');
        json.push('"');
    } else if letter == '\\' {
        json.push('\\');
        json.push('\\');
    } else if letter == '\n' {
        json.push('\\');
        json.push('n');
    } else if letter == '\r' {
        json.push('\\');
        json.push('r');
    } else if letter == '\t' {
        json.push('\\');
        json.push('t');
    } else if (letter as u32) < 0x20 {
        json.push('\\');
        json.push('u');
        push_hex_digits(json, letter as u64, 4);
    } else {
        json.push(letter);
    }
    assert(json@ =~= before + escaped_letter(letter));
}

/// Appends a text as a JSON string.
pub fn push_json_string(json: &mut String, value: &str)
    ensures
        final(json)@ == old(json)@ + json_string(value@),
{
    let ghost start = json@;
    let letters = characters(value);
    json.push('"');
    let mut index: usize = 0;
    assert(letters@.take(0) =~= Seq::empty());
    assert(json@ =~= start + seq!['"'] + escaped_text(letters@.take(0)));
    while index < letters.len()
        invariant
            index <= letters@.len(),
            json@ == start + seq!['"'] + escaped_text(letters@.take(index as int)),
        decreases letters@.len() - index,
    {
        push_escaped(json, letters[index]);
        proof {
            lemma_escaped_push(letters@.take(index as int), letters@[index as int]);
            assert(letters@.take(index + 1) =~= letters@.take(index as int).push(
                letters@[index as int],
            ));
            assert(json@ =~= start + seq!['"'] + escaped_text(letters@.take(index + 1)));
        }
        index = index + 1;
    }
    json.push('"');
    assert(letters@.take(index as int) =~= letters@);
    assert(json@ =~= start + json_string(value@));
}

/// Appends an optional text as a JSON value.
pub fn push_optional_string(json: &mut String, value: &Option<String>)
    ensures
        final(json)@ == old(json)@ + json_optional(optional_text(*value)),
{
    match value {
        Some(text) => push_json_string(json, text.as_str()),
        None => json.append("null"),
    }
}

proof fn lemma_items_step(before: Seq<char>, values: Seq<Seq<char>>, index: int)
    requires
        0 <= index < values.len(),
    ensures
        index == 0 ==> before + json_items(values, 0) + json_string(values[0]) == before
            + json_items(values, 1),
        index > 0 ==> before + json_items(values, index) + seq![','] + json_string(values[index])
            == before + json_items(values, index + 1),
{
    if index == 0 {
        assert(before + json_items(values, 0) + json_string(values[0]) =~= before + json_items(
            values,
            1,
        ));
    } else {
        assert(before + json_items(values, index) + seq![','] + json_string(values[index])
            =~= before + json_items(values, index + 1));
    }
}

/// Appends a list of texts as a JSON array.
pub fn push_string_array(json: &mut String, values: &Vec<String>)
    ensures
        final(json)@ == old(json)@ + json_array(texts(values@)),
{
    let ghost start = json@;
    let ghost items = texts(values@);
    json.push('[');
    let ghost head = json@;
    let mut index: usize = 0;
    assert(json@ =~= head + json_items(items, 0));
    while index < values.len()
        invariant
            index <= values@.len(),
            items == texts(values@),
            json@ == head + json_items(items, index as int),
        decreases values@.len() - index,
    {
        if index > 0 {
            json.push(',');
            assert(json@ =~= head + json_items(items, index as int) + seq![',']);
        }
        push_json_string(json, values[index].as_str());
        proof {
            lemma_items_step(head, items, index as int);
        }
        index = index + 1;
    }
    json.push(']');
    assert(json@ =~= start + json_array(items));
}

/// Appends byte strings as a JSON array of hexadecimal texts.
pub fn push_hex_array(json: &mut String, values: &Vec<Vec<u8>>)
    ensures
        final(json)@ == old(json)@ + json_array(hex_texts(byte_strings(values@))),
{
    let mut shown: Vec<String> = Vec::new();
    let mut index: usize = 0;
    while index < values.len()
        invariant
            index <= values@.len(),
            shown@.len() == index,
            forall|i: int| 0 <= i < index ==> (#[trigger] shown@[i])@ == hex_text(values@[i]@),
        decreases values@.len() - index,
    {
        shown.push(hex(values[index].as_slice()));
        index = index + 1;
    }
    assert(texts(shown@) =~= hex_texts(byte_strings(values@)));
    push_string_array(json, &shown);
}

/// Appends byte strings as a JSON array of displayed texts.
pub fn push_display_array(json: &mut String, values: &Vec<Vec<u8>>)
    ensures
        final(json)@ == old(json)@ + json_array(
            displayed_texts(byte_strings(values@)),
        ),
{
    let mut shown: Vec<String> = Vec::new();
    let mut index: usize = 0;
    while index < values.len()
        invariant
            index <= values@.len(),
            shown@.len() == index,
            forall|i: int| 0 <= i < index ==> (#[trigger] shown@[i])@ == lossy_text(values@[i]@),
        decreases values@.len() - index,
    {
        shown.push(lossy(values[index].as_slice()));
        index = index + 1;
    }
    assert(texts(shown@) =~= displayed_texts(byte_strings(values@)));
    push_string_array(json, &shown);
}

/// The JSON literal of a truth value.
pub open spec fn json_bool(value: bool) -> Seq<char> {
    if value {
        "true"@
    } else {
        "false"@
    }
}

/// The JSON literal of a truth value.
pub fn bool_literal(value: bool) -> (literal: &'static str)
    ensures
        literal@ == json_bool(value),
{
    if value {
        "true"
    } else {
        "false"
    }
}

proof fn lemma_hex_digits_injective(left: nat, right: nat)
    requires
        left < 0x20,
        right < 0x20,
        hex_digits(left, 4) == hex_digits(right, 4),
    ensures
        left == right,
{
    reveal_with_fuel(hex_digits, 5);
    assert(hex_digits(left, 4)[3] == hex_digit(left % 16));
    assert(hex_digits(right, 4)[3] == hex_digit(right % 16));
    assert(hex_digits(left, 4)[2] == hex_digit((left / 16) % 16));
    assert(hex_digits(right, 4)[2] == hex_digit((right / 16) % 16));
}

proof fn lemma_escaped_front(left: char, right: char, rest: Seq<char>, other: Seq<char>)
    requires
        escaped_letter(left) + rest == escaped_letter(right) + other,
    ensures
        left == right,
        rest == other,
{
    let one = escaped_letter(left) + rest;
    let two = escaped_letter(right) + other;
    reveal_with_fuel(hex_digits, 5);
    assert(one[0] == escaped_letter(left)[0]);
    assert(two[0] == escaped_letter(right)[0]);
    if escaped_letter(left).len() > 1 {
        assert(one[1] == escaped_letter(left)[1]);
    }
    if escaped_letter(right).len() > 1 {
        assert(two[1] == escaped_letter(right)[1]);
    }
    if escaped_letter(left).len() == 6 && escaped_letter(right).len() == 6 {
        assert(hex_digits(left as nat, 4) =~= one.subrange(2, 6));
        assert(hex_digits(right as nat, 4) =~= two.subrange(2, 6));
        lemma_hex_digits_injective(left as nat, right as nat);
    }
    assert(rest =~= one.skip(escaped_letter(left).len() as int));
    assert(other =~= two.skip(escaped_letter(right).len() as int));
}

proof fn lemma_escaped_injective(left: Seq<char>, right: Seq<char>)
    requires
        escaped_text(left) == escaped_text(right),
    ensures
        left == right,
    decreases left.len(),
{
    reveal_with_fuel(hex_digits, 5);
    if left.len() == 0 {
        if right.len() > 0 {
            assert(escaped_text(right)[0] == escaped_letter(right[0])[0]);
            assert(escaped_text(right).len() > 0);
        }
        assert(left =~= right);
    } else if right.len() == 0 {
        assert(escaped_text(left)[0] == escaped_letter(left[0])[0]);
        assert(escaped_text(left).len() > 0);
    } else {
        lemma_escaped_front(
            left[0],
            right[0],
            escaped_text(left.skip(1)),
            escaped_text(right.skip(1)),
        );
        lemma_escaped_injective(left.skip(1), right.skip(1));
        assert(left =~= seq![left[0]] + left.skip(1));
        assert(right =~= seq![right[0]] + right.skip(1));
    }
}

/// Different texts have different JSON strings.
pub proof fn law_json_strings_are_unambiguous(left: Seq<char>, right: Seq<char>)
    requires
        json_string(left) == json_string(right),
    ensures
        left == right,
{
    let one = json_string(left);
    let two = json_string(right);
    assert(escaped_text(left) =~= one.subrange(1, one.len() - 1));
    assert(escaped_text(right) =~= two.subrange(1, two.len() - 1));
    lemma_escaped_injective(left, right);
}

} // verus!
