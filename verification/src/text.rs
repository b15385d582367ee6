//! Text and bytes: comparison, concatenation, bounded prefixes, and lines.

use vstd::prelude::*;
use vstd::string::*;
use vstd::utf8::*;

verus! {

/// The number of bytes that `text` takes in UTF-8.
pub open spec fn byte_len(text: Seq<char>) -> nat {
    encode_utf8(text).len()
}

/// The longest prefix of `text` that takes at most `limit` bytes in UTF-8.
pub open spec fn bounded_text(text: Seq<char>, limit: nat) -> Seq<char>
    decreases text.len(),
{
    if text.len() == 0 || byte_len(text) <= limit {
        text
    } else {
        bounded_text(text.drop_last(), limit)
    }
}

/// The views of a list of strings.
pub open spec fn texts(values: Seq<String>) -> Seq<Seq<char>> {
    values.map_values(|value: String| value@)
}

/// The views of a list of byte strings.
pub open spec fn byte_strings(values: Seq<Vec<u8>>) -> Seq<Seq<u8>> {
    values.map_values(|value: Vec<u8>| value@)
}

/// The view of an optional string.
pub open spec fn optional_text(value: Option<String>) -> Option<Seq<char>> {
    match value {
        Some(text) => Some(text@),
        None => None,
    }
}

/// The view of an optional byte string.
pub open spec fn optional_bytes(value: Option<Vec<u8>>) -> Option<Seq<u8>> {
    match value {
        Some(bytes) => Some(bytes@),
        None => None,
    }
}

/// Appends one character to a string (`String::push`).
pub assume_specification[ String::push ](value: &mut String, letter: char)
    ensures
        final(value)@ == old(value)@.push(letter),
;

/// The text that `String::from_utf8_lossy` makes of a byte string.
pub uninterp spec fn lossy_text(bytes: Seq<u8>) -> Seq<char>;

/// Reads bytes as UTF-8 with `std::str::from_utf8`. The contract claims that it succeeds on
/// exactly the valid byte strings, and returns the text that they encode.
#[verifier::external_body]
pub(crate) fn utf8_text(bytes: &[u8]) -> (text: Option<&str>)
    ensures
        match text {
            Some(found) => valid_utf8(bytes@) && found@ == decode_utf8(bytes@),
            None => !valid_utf8(bytes@),
        },
{
    std::str::from_utf8(bytes).ok()
}

/// Reads bytes as text with `String::from_utf8_lossy`. The contract claims that the text is a
/// function of the bytes, and that valid UTF-8 is read as it stands.
#[verifier::external_body]
pub(crate) fn lossy(bytes: &[u8]) -> (text: String)
    ensures
        text@ == lossy_text(bytes@),
        valid_utf8(bytes@) ==> text@ == decode_utf8(bytes@),
{
    String::from_utf8_lossy(bytes).into_owned()
}

/// The text that bytes encode, when they are valid UTF-8.
pub open spec fn encoded_text(bytes: Seq<u8>) -> Option<Seq<char>> {
    if valid_utf8(bytes) {
        Some(decode_utf8(bytes))
    } else {
        None
    }
}

/// The text that bytes encode, when they are valid UTF-8.
pub fn decoded(bytes: &[u8]) -> (text: Option<String>)
    ensures
        optional_text(text) == encoded_text(bytes@),
{
    match utf8_text(bytes) {
        Some(text) => Some(text.to_owned()),
        None => None,
    }
}

/// Whether two texts are the same.
pub fn same_text(left: &str, right: &str) -> (same: bool)
    ensures
        same == (left@ == right@),
{
    left.to_owned() == right.to_owned()
}

/// Whether two byte strings are the same.
pub fn same_bytes(left: &[u8], right: &[u8]) -> (same: bool)
    ensures
        same == (left@ == right@),
{
    if left.len() != right.len() {
        return false;
    }
    let mut index: usize = 0;
    while index < left.len()
        invariant
            index <= left@.len() == right@.len(),
            forall|i: int| 0 <= i < index ==> left@[i] == right@[i],
        decreases left@.len() - index,
    {
        if left[index] != right[index] {
            return false;
        }
        index = index + 1;
    }
    assert(left@ =~= right@);
    true
}

/// Whether `values` holds `wanted`.
pub fn contains_text(values: &Vec<String>, wanted: &str) -> (found: bool)
    ensures
        found == texts(values@).contains(wanted@),
{
    let mut index: usize = 0;
    while index < values.len()
        invariant
            index <= values@.len(),
            forall|i: int| 0 <= i < index ==> values@[i]@ != wanted@,
        decreases values@.len() - index,
    {
        if same_text(values[index].as_str(), wanted) {
            proof {
                assert(texts(values@)[index as int] == wanted@);
            }
            return true;
        }
        index = index + 1;
    }
    proof {
        assert forall|i: int| 0 <= i < texts(values@).len() implies texts(values@)[i] != wanted@ by {
            assert(texts(values@)[i] == values@[i]@);
        }
    }
    false
}

/// `first` followed by `second`.
pub fn text2(first: &str, second: &str) -> (joined: String)
    ensures
        joined@ == first@ + second@,
{
    let mut joined = first.to_owned();
    joined.append(second);
    joined
}

/// Three texts, one after the other.
pub fn text3(first: &str, second: &str, third: &str) -> (joined: String)
    ensures
        joined@ == first@ + second@ + third@,
{
    let mut joined = first.to_owned();
    joined.append(second);
    joined.append(third);
    joined
}

/// Four texts, one after the other.
pub fn text4(first: &str, second: &str, third: &str, fourth: &str) -> (joined: String)
    ensures
        joined@ == first@ + second@ + third@ + fourth@,
{
    let mut joined = first.to_owned();
    joined.append(second);
    joined.append(third);
    joined.append(fourth);
    joined
}

/// Five texts, one after the other.
pub fn text5(first: &str, second: &str, third: &str, fourth: &str, fifth: &str) -> (joined: String)
    ensures
        joined@ == first@ + second@ + third@ + fourth@ + fifth@,
{
    let mut joined = first.to_owned();
    joined.append(second);
    joined.append(third);
    joined.append(fourth);
    joined.append(fifth);
    joined
}

/// The characters of a text.
pub fn characters(text: &str) -> (letters: Vec<char>)
    ensures
        letters@ == text@,
{
    let mut letters: Vec<char> = Vec::new();
    for letter in it: text.chars()
        invariant
            it.seq() == text@,
            letters@ == text@.take(it.index() as int),
    {
        letters.push(letter);
    }
    letters
}

/// The text made of `letters[from..to]`.
pub fn text_between(letters: &[char], from: usize, to: usize) -> (text: String)
    requires
        from <= to <= letters@.len(),
    ensures
        text@ == letters@.subrange(from as int, to as int),
{
    let mut text = String::new();
    let mut index: usize = from;
    while index < to
        invariant
            from <= index <= to <= letters@.len(),
            text@ == letters@.subrange(from as int, index as int),
        decreases to - index,
    {
        text.push(letters[index]);
        index = index + 1;
    }
    text
}

/// UTF-8 encodes a concatenation piece by piece.
pub proof fn lemma_encode_concat(first: Seq<char>, second: Seq<char>)
    ensures
        encode_utf8(first + second) == encode_utf8(first) + encode_utf8(second),
    decreases first.len(),
{
    if first.len() == 0 {
        assert(first + second =~= second);
    } else {
        lemma_encode_concat(first.drop_first(), second);
        assert((first + second).drop_first() =~= first.drop_first() + second);
        assert(encode_utf8(first + second) =~= encode_utf8(first) + encode_utf8(second));
    }
}

/// Two texts with the same UTF-8 bytes are the same text.
pub proof fn lemma_encode_injective(first: Seq<char>, second: Seq<char>)
    requires
        encode_utf8(first) == encode_utf8(second),
    ensures
        first == second,
{
    encode_utf8_decode_utf8(first);
    encode_utf8_decode_utf8(second);
}

/// Inside the encoding of one character only its first byte is a boundary.
proof fn lemma_single_boundary(letter: char, index: int)
    requires
        0 <= index < encode_scalar(letter as u32).len(),
    ensures
        encode_utf8(seq![letter]) == encode_scalar(letter as u32),
        is_char_boundary(encode_scalar(letter as u32), index) <==> index == 0,
        is_continuation_byte(encode_scalar(letter as u32)[index]) <==> index != 0,
{
    let single = seq![letter];
    assert(single.drop_first() =~= Seq::<char>::empty());
    reveal_with_fuel(encode_utf8, 2);
    assert(encode_utf8(single) =~= encode_scalar(letter as u32));
    encode_utf8_valid_utf8(single);
    encode_utf8_first_scalar(single);
    let bytes = encode_utf8(single);
    reveal_with_fuel(is_char_boundary, 2);
    assert(is_char_boundary(bytes, index) <==> index == 0);
    is_char_boundary_iff_not_is_continuation_byte(bytes, index);
}

/// The boundary search on bytes finds the longest prefix that fits.
proof fn lemma_bounded_text(text: Seq<char>, boundary: int, limit: nat)
    requires
        0 <= boundary <= limit,
        boundary <= byte_len(text),
        is_char_boundary(encode_utf8(text), boundary),
        forall|j: int|
            boundary < j <= limit && j <= byte_len(text) ==> !is_char_boundary(
                encode_utf8(text),
                j,
            ),
    ensures
        encode_utf8(bounded_text(text, limit)) == encode_utf8(text).subrange(0, boundary),
    decreases text.len(),
{
    let bytes = encode_utf8(text);
    encode_utf8_valid_utf8(text);
    is_char_boundary_start_end_of_seq(bytes);
    if text.len() == 0 || byte_len(text) <= limit {
        assert(boundary == byte_len(text));
        assert(bytes.subrange(0, boundary) =~= bytes);
    } else {
        let shorter = text.drop_last();
        let letter = text.last();
        let head = encode_utf8(shorter);
        let tail = encode_scalar(letter as u32);
        assert(text =~= shorter + seq![letter]);
        lemma_encode_concat(shorter, seq![letter]);
        lemma_single_boundary(letter, 0);
        assert(bytes == head + tail);
        encode_utf8_valid_utf8(shorter);
        is_char_boundary_start_end_of_seq(head);
        if boundary > head.len() {
            lemma_single_boundary(letter, boundary - head.len());
            is_char_boundary_iff_not_is_continuation_byte(bytes, boundary);
            assert(bytes[boundary] == tail[boundary - head.len()]);
            assert(false);
        }
        assert forall|j: int| 0 <= j <= head.len() implies (is_char_boundary(head, j)
            <==> is_char_boundary(bytes, j)) by {
            is_char_boundary_iff_not_is_continuation_byte(bytes, j);
            if j < head.len() {
                is_char_boundary_iff_not_is_continuation_byte(head, j);
                assert(bytes[j] == head[j]);
            } else {
                assert(bytes[j] == tail[0]);
            }
        }
        lemma_bounded_text(shorter, boundary, limit);
        assert(head.subrange(0, boundary) =~= bytes.subrange(0, boundary));
    }
}

/// A bounded text fits its limit, and is a prefix of the text it was cut from.
pub proof fn lemma_bounded_text_fits(text: Seq<char>, limit: nat)
    ensures
        byte_len(bounded_text(text, limit)) <= limit,
        bounded_text(text, limit).is_prefix_of(text),
        byte_len(text) <= limit ==> bounded_text(text, limit) == text,
    decreases text.len(),
{
    if text.len() == 0 || byte_len(text) <= limit {
    } else {
        lemma_bounded_text_fits(text.drop_last(), limit);
    }
}

/// The longest prefix of `text` that takes at most `limit` bytes.
pub fn bounded_prefix(text: &str, limit: usize) -> (prefix: String)
    ensures
        prefix@ == bounded_text(text@, limit as nat),
{
    let bytes = text.as_bytes();
    let mut boundary: usize = if bytes.len() < limit {
        bytes.len()
    } else {
        limit
    };
    proof {
        encode_utf8_valid_utf8(text@);
        is_char_boundary_start_end_of_seq(encode_utf8(text@));
    }
    while !text.is_char_boundary(boundary)
        invariant
            bytes@ == encode_utf8(text@),
            boundary <= limit,
            boundary <= bytes@.len(),
            is_char_boundary(encode_utf8(text@), 0),
            forall|j: int|
                boundary < j <= limit && j <= bytes@.len() ==> !is_char_boundary(
                    encode_utf8(text@),
                    j,
                ),
        decreases boundary,
    {
        boundary = boundary - 1;
    }
    proof {
        lemma_bounded_text(text@, boundary as int, limit as nat);
    }
    let (head, _tail) = text.split_at(boundary);
    let prefix = head.to_owned();
    proof {
        lemma_encode_injective(prefix@, bounded_text(text@, limit as nat));
    }
    prefix
}

/// The UTF-8 bytes of an ASCII text are its characters.
pub proof fn lemma_ascii_bytes(text: Seq<char>)
    requires
        is_ascii_chars(text),
    ensures
        encode_utf8(text).len() == text.len(),
        forall|i: int| 0 <= i < text.len() ==> #[trigger] encode_utf8(text)[i] == text[i] as u8,
{
    is_ascii_chars_encode_utf8(text);
}

/// A bounded ASCII text keeps one character for each byte of its limit.
pub proof fn lemma_bounded_ascii(text: Seq<char>, limit: nat)
    requires
        is_ascii_chars(text),
    ensures
        bounded_text(text, limit) == if text.len() <= limit {
            text
        } else {
            text.take(limit as int)
        },
    decreases text.len(),
{
    lemma_ascii_bytes(text);
    if text.len() > 0 && byte_len(text) > limit {
        assert(is_ascii_chars(text.drop_last()));
        lemma_bounded_ascii(text.drop_last(), limit);
        assert(text.drop_last().take(limit as int) =~= text.take(limit as int));
        if text.len() - 1 == limit {
            assert(text.drop_last() =~= text.take(limit as int));
        }
    }
}

/// Where `byte` first stands in `value` at or after `from`.
pub open spec fn first_place(value: Seq<u8>, byte: u8, from: int) -> Option<int>
    decreases value.len() - from,
{
    if from < 0 || from >= value.len() {
        None
    } else if value[from] == byte {
        Some(from)
    } else {
        first_place(value, byte, from + 1)
    }
}

/// The first place of a byte, when there is one, is the only one up to there.
pub proof fn lemma_first_place(value: Seq<u8>, byte: u8, from: int)
    requires
        0 <= from,
    ensures
        match first_place(value, byte, from) {
            Some(place) => from <= place < value.len() && value[place] == byte && forall|i: int|
                from <= i < place ==> value[i] != byte,
            None => forall|i: int| from <= i < value.len() ==> value[i] != byte,
        },
    decreases value.len() - from,
{
    if from < value.len() && value[from] != byte {
        lemma_first_place(value, byte, from + 1);
    }
}

/// Finds the first place of `byte` at or after `from`.
pub fn find_byte(value: &[u8], byte: u8, from: usize) -> (place: Option<usize>)
    requires
        from <= value@.len(),
    ensures
        match place {
            Some(found) => first_place(value@, byte, from as int) == Some(found as int) && from
                <= found < value@.len(),
            None => first_place(value@, byte, from as int) is None,
        },
{
    let mut index: usize = from;
    while index < value.len()
        invariant
            from <= index <= value@.len(),
            first_place(value@, byte, from as int) == first_place(value@, byte, index as int),
        decreases value@.len() - index,
    {
        if value[index] == byte {
            return Some(index);
        }
        index = index + 1;
    }
    None
}

/// What stands before and after the first `separator`.
pub open spec fn split_at_first(value: Seq<u8>, separator: u8) -> Option<(Seq<u8>, Seq<u8>)> {
    match first_place(value, separator, 0) {
        Some(place) => Some((value.take(place), value.skip(place + 1))),
        None => None,
    }
}

/// Splits a byte string at the first `separator`.
pub fn split_once(value: &[u8], separator: u8) -> (pair: Option<(&[u8], &[u8])>)
    ensures
        match pair {
            Some((head, tail)) => split_at_first(value@, separator) == Some((head@, tail@)),
            None => split_at_first(value@, separator) is None,
        },
{
    match find_byte(value, separator, 0) {
        Some(place) => {
            let total: usize = value.len();
            let head = &value[0..place];
            let tail = &value[place + 1..total];
            assert(head@ =~= value@.take(place as int));
            assert(tail@ =~= value@.skip(place + 1));
            Some((head, tail))
        },
        None => None,
    }
}

/// Whether `value` starts with `prefix`.
pub fn has_prefix(value: &[u8], prefix: &[u8]) -> (found: bool)
    ensures
        found == prefix@.is_prefix_of(value@),
{
    if prefix.len() > value.len() {
        return false;
    }
    same_bytes(&value[0..prefix.len()], prefix)
}

/// What follows `prefix` in `value`.
pub open spec fn after_prefix(value: Seq<u8>, prefix: Seq<u8>) -> Option<Seq<u8>> {
    if prefix.is_prefix_of(value) {
        Some(value.skip(prefix.len() as int))
    } else {
        None
    }
}

/// Takes `prefix` off the front of `value`.
pub fn suffix<'a>(value: &'a [u8], prefix: &str) -> (rest: Option<&'a [u8]>)
    ensures
        match rest {
            Some(found) => after_prefix(value@, encode_utf8(prefix@)) == Some(found@),
            None => after_prefix(value@, encode_utf8(prefix@)) is None,
        },
{
    let start = prefix.as_bytes();
    if has_prefix(value, start) {
        let rest = &value[start.len()..value.len()];
        assert(rest@ =~= value@.skip(start@.len() as int));
        Some(rest)
    } else {
        None
    }
}

/// A copy of a list of byte strings.
pub fn copy_byte_strings(values: &Vec<Vec<u8>>) -> (copy: Vec<Vec<u8>>)
    ensures
        byte_strings(copy@) == byte_strings(values@),
{
    let mut copy: Vec<Vec<u8>> = Vec::new();
    let mut index: usize = 0;
    while index < values.len()
        invariant
            index <= values@.len(),
            copy@.len() == index,
            forall|i: int| 0 <= i < index ==> (#[trigger] copy@[i])@ == values@[i]@,
        decreases values@.len() - index,
    {
        copy.push(vstd::slice::slice_to_vec(values[index].as_slice()));
        index = index + 1;
    }
    assert(byte_strings(copy@) =~= byte_strings(values@));
    copy
}

/// Whether two lists of texts are the same.
pub fn same_texts(left: &Vec<String>, right: &Vec<String>) -> (same: bool)
    ensures
        same == (texts(left@) == texts(right@)),
{
    if left.len() != right.len() {
        assert(texts(left@).len() != texts(right@).len());
        return false;
    }
    let mut index: usize = 0;
    while index < left.len()
        invariant
            index <= left@.len() == right@.len(),
            forall|i: int| 0 <= i < index ==> (#[trigger] left@[i])@ == right@[i]@,
        decreases left@.len() - index,
    {
        if left[index] != right[index] {
            proof {
                assert(texts(left@)[index as int] == left@[index as int]@);
                assert(texts(right@)[index as int] == right@[index as int]@);
            }
            return false;
        }
        index = index + 1;
    }
    assert(texts(left@) =~= texts(right@));
    true
}

/// A copy of an optional text.
pub fn copy_text(value: &Option<String>) -> (copy: Option<String>)
    ensures
        copy == *value,
{
    match value {
        Some(text) => Some(text.clone()),
        None => None,
    }
}

/// Whether a character has the Unicode property `White_Space`.
pub open spec fn is_white_space(letter: char) -> bool {
    let code = letter as u32;
    ||| 9 <= code <= 13
    ||| code == 32
    ||| code == 133
    ||| code == 160
    ||| code == 5760
    ||| 8192 <= code <= 8202
    ||| code == 8232
    ||| code == 8233
    ||| code == 8239
    ||| code == 8287
    ||| code == 12288
}

/// Whether a character has the Unicode property `White_Space`.
pub fn white_space(letter: char) -> (found: bool)
    ensures
        found == is_white_space(letter),
{
    let code: u32 = letter as u32;
    (9 <= code && code <= 13) || code == 32 || code == 133 || code == 160 || code == 5760 || (8192
        <= code && code <= 8202) || code == 8232 || code == 8233 || code == 8239 || code == 8287
        || code == 12288
}

/// A text without the white space at its start.
pub open spec fn trimmed_start(text: Seq<char>) -> Seq<char>
    decreases text.len(),
{
    if text.len() > 0 && is_white_space(text[0]) {
        trimmed_start(text.drop_first())
    } else {
        text
    }
}

/// A text without the white space at its end.
pub open spec fn trimmed_end(text: Seq<char>) -> Seq<char>
    decreases text.len(),
{
    if text.len() > 0 && is_white_space(text.last()) {
        trimmed_end(text.drop_last())
    } else {
        text
    }
}

/// A text without the white space at both its ends.
pub open spec fn trimmed(text: Seq<char>) -> Seq<char> {
    trimmed_end(trimmed_start(text))
}

/// Takes the white space off both ends of a text.
pub fn trim(text: &str) -> (result: String)
    ensures
        result@ == trimmed(text@),
{
    let letters = characters(text);
    let mut from: usize = 0;
    proof {
        assert(letters@.skip(0) =~= letters@);
    }
    while from < letters.len() && white_space(letters[from])
        invariant
            from <= letters@.len(),
            letters@ == text@,
            trimmed_start(text@) == trimmed_start(letters@.skip(from as int)),
        decreases letters@.len() - from,
    {
        proof {
            assert(letters@.skip(from as int).drop_first() =~= letters@.skip(from + 1));
        }
        from = from + 1;
    }
    let ghost rest = letters@.skip(from as int);
    assert(trimmed_start(text@) == rest);
    let mut to: usize = letters.len();
    proof {
        assert(letters@.subrange(from as int, to as int) =~= rest);
    }
    while to > from && white_space(letters[to - 1])
        invariant
            from <= to <= letters@.len(),
            trimmed_end(rest) == trimmed_end(letters@.subrange(from as int, to as int)),
        decreases to,
    {
        proof {
            let piece = letters@.subrange(from as int, to as int);
            assert(piece.last() == letters@[to - 1]);
            assert(piece.drop_last() =~= letters@.subrange(from as int, to - 1));
        }
        to = to - 1;
    }
    text_between(letters.as_slice(), from, to)
}

/// Whether two optional texts are the same.
pub fn same_optional_text(left: &Option<String>, right: &Option<String>) -> (same: bool)
    ensures
        same == (optional_text(*left) == optional_text(*right)),
{
    match (left, right) {
        (Some(first), Some(second)) => same_text(first.as_str(), second.as_str()),
        (None, None) => true,
        _ => false,
    }
}

/// The text of an option, or the empty text.
pub open spec fn text_or_empty(value: Option<Seq<char>>) -> Seq<char> {
    match value {
        Some(text) => text,
        None => Seq::empty(),
    }
}

/// The text of an option, or the empty text.
pub fn or_empty(value: &Option<String>) -> (text: String)
    ensures
        text@ == text_or_empty(optional_text(*value)),
{
    match value {
        Some(text) => text.clone(),
        None => String::new(),
    }
}

/// The texts, with `separator` between each two.
pub open spec fn joined_texts(values: Seq<Seq<char>>, separator: Seq<char>) -> Seq<char>
    decreases values.len(),
{
    if values.len() == 0 {
        Seq::empty()
    } else if values.len() == 1 {
        values[0]
    } else {
        joined_texts(values.drop_last(), separator) + separator + values.last()
    }
}

/// Joins texts with `separator` between each two.
pub fn join_texts(values: &Vec<String>, separator: &str) -> (joined: String)
    ensures
        joined@ == joined_texts(texts(values@), separator@),
{
    let ghost views = texts(values@);
    let mut joined = String::new();
    let mut index: usize = 0;
    assert(views.take(0) =~= Seq::empty());
    while index < values.len()
        invariant
            index <= values@.len(),
            views == texts(values@),
            joined@ == joined_texts(views.take(index as int), separator@),
        decreases values@.len() - index,
    {
        proof {
            let next = views.take(index + 1);
            assert(next.drop_last() =~= views.take(index as int));
            assert(next.last() == values@[index as int]@);
            assert(next[0] == views[0]);
        }
        if index > 0 {
            joined.append(separator);
        }
        joined.append(values[index].as_str());
        proof {
            if index == 0 {
                assert(joined@ =~= values@[0]@);
            }
        }
        index = index + 1;
    }
    assert(views.take(index as int) =~= views);
    joined
}

/// A copy of a list of texts.
pub fn copy_texts(values: &Vec<String>) -> (copy: Vec<String>)
    ensures
        texts(copy@) == texts(values@),
{
    values.clone()
}

/// The decimal digit of a number below ten.
pub open spec fn digit(value: nat) -> char {
    (48 + value) as char
}

/// A number in decimal.
pub open spec fn decimal_text(value: nat) -> Seq<char>
    decreases value,
{
    if value < 10 {
        seq![digit(value)]
    } else {
        decimal_text(value / 10).push(digit(value % 10))
    }
}

fn digit_letter(value: u8) -> (letter: char)
    requires
        value < 10,
    ensures
        letter == digit(value as nat),
{
    let code: u8 = 48 + value;
    code as char
}

/// Writes a number in decimal.
pub fn decimal_wide(value: u128) -> (text: String)
    ensures
        text@ == decimal_text(value as nat),
    decreases value,
{
    if value < 10 {
        let mut text = String::new();
        text.push(digit_letter(value as u8));
        assert(text@ =~= seq![digit(value as nat)]);
        text
    } else {
        let mut text = decimal_wide(value / 10);
        let last: u128 = value % 10;
        text.push(digit_letter(last as u8));
        text
    }
}

/// Writes a number in decimal.
pub fn decimal(value: u64) -> (text: String)
    ensures
        text@ == decimal_text(value as nat),
{
    decimal_wide(value as u128)
}

/// A line without the carriage return at its end.
pub open spec fn without_return(line: Seq<char>) -> Seq<char> {
    if line.len() > 0 && line.last() == '\r' {
        line.drop_last()
    } else {
        line
    }
}

/// The lines of `rest`, when `line` stands before it on its first line.
pub open spec fn lines_after(line: Seq<char>, rest: Seq<char>) -> Seq<Seq<char>>
    decreases rest.len(),
{
    if rest.len() == 0 {
        if line.len() == 0 {
            Seq::empty()
        } else {
            seq![line]
        }
    } else if rest[0] == '\n' {
        seq![without_return(line)] + lines_after(Seq::empty(), rest.drop_first())
    } else {
        lines_after(line.push(rest[0]), rest.drop_first())
    }
}

/// The lines of a text, without their line feeds and the carriage returns before those.
pub open spec fn lines_of(text: Seq<char>) -> Seq<Seq<char>> {
    lines_after(Seq::empty(), text)
}

/// Splits a text into its lines.
pub fn lines(text: &str) -> (result: Vec<String>)
    ensures
        texts(result@) == lines_of(text@),
{
    let letters = characters(text);
    let mut result: Vec<String> = Vec::new();
    let mut start: usize = 0;
    let mut index: usize = 0;
    proof {
        assert(letters@.skip(0) =~= letters@);
        assert(letters@.subrange(0, 0) =~= Seq::empty());
        assert(lines_of(text@) =~= texts(result@) + lines_after(
            letters@.subrange(0, 0),
            letters@.skip(0),
        ));
    }
    while index < letters.len()
        invariant
            start <= index <= letters@.len(),
            letters@ == text@,
            lines_of(text@) == texts(result@) + lines_after(
                letters@.subrange(start as int, index as int),
                letters@.skip(index as int),
            ),
        decreases letters@.len() - index,
    {
        let ghost line = letters@.subrange(start as int, index as int);
        let ghost rest = letters@.skip(index as int);
        assert(rest.drop_first() =~= letters@.skip(index + 1));
        if letters[index] == '\n' {
            let end: usize = if index > start && letters[index - 1] == '\r' {
                index - 1
            } else {
                index
            };
            let found = text_between(letters.as_slice(), start, end);
            assert(found@ =~= without_return(line)) by {
                if line.len() > 0 {
                    assert(line.last() == letters@[index - 1]);
                }
            }
            let ghost before = result@;
            result.push(found);
            assert(texts(result@) =~= texts(before).push(found@));
            start = index + 1;
            proof {
                assert(letters@.subrange(start as int, index + 1) =~= Seq::empty());
                assert(lines_of(text@) =~= texts(result@) + lines_after(
                    Seq::empty(),
                    letters@.skip(index + 1),
                ));
            }
        } else {
            assert(letters@.subrange(start as int, index + 1) =~= line.push(letters@[index as int]));
        }
        index = index + 1;
    }
    let ghost tail = letters@.subrange(start as int, index as int);
    assert(letters@.skip(index as int) =~= Seq::empty());
    if start < index {
        let found = text_between(letters.as_slice(), start, index);
        let ghost before = result@;
        result.push(found);
        assert(texts(result@) =~= texts(before).push(found@));
        assert(lines_of(text@) =~= texts(result@));
    } else {
        assert(lines_of(text@) =~= texts(result@));
    }
    result
}

/// The part of a text before its first white space.
pub open spec fn before_space(text: Seq<char>) -> Seq<char>
    decreases text.len(),
{
    if text.len() == 0 || is_white_space(text[0]) {
        Seq::empty()
    } else {
        seq![text[0]] + before_space(text.drop_first())
    }
}

/// The first word of a text.
pub open spec fn first_word_of(text: Seq<char>) -> Option<Seq<char>> {
    let word = before_space(trimmed_start(text));
    if word.len() == 0 {
        None
    } else {
        Some(word)
    }
}

/// The first word of a text.
pub fn first_word(text: &str) -> (word: Option<String>)
    ensures
        optional_text(word) == first_word_of(text@),
{
    let letters = characters(text);
    let mut from: usize = 0;
    proof {
        assert(letters@.skip(0) =~= letters@);
    }
    while from < letters.len() && white_space(letters[from])
        invariant
            from <= letters@.len(),
            letters@ == text@,
            trimmed_start(text@) == trimmed_start(letters@.skip(from as int)),
        decreases letters@.len() - from,
    {
        proof {
            assert(letters@.skip(from as int).drop_first() =~= letters@.skip(from + 1));
        }
        from = from + 1;
    }
    let ghost rest = letters@.skip(from as int);
    assert(trimmed_start(text@) == rest);
    let mut to: usize = from;
    proof {
        assert(before_space(rest) =~= letters@.subrange(from as int, to as int) + before_space(
            letters@.skip(to as int),
        ));
    }
    while to < letters.len() && !white_space(letters[to])
        invariant
            from <= to <= letters@.len(),
            before_space(rest) == letters@.subrange(from as int, to as int) + before_space(
                letters@.skip(to as int),
            ),
        decreases letters@.len() - to,
    {
        proof {
            let remaining = letters@.skip(to as int);
            assert(remaining.drop_first() =~= letters@.skip(to + 1));
            assert(letters@.subrange(from as int, to as int) + (seq![letters@[to as int]]
                + before_space(letters@.skip(to + 1))) =~= letters@.subrange(
                from as int,
                to + 1,
            ) + before_space(letters@.skip(to + 1)));
        }
        to = to + 1;
    }
    proof {
        assert(before_space(letters@.skip(to as int)) =~= Seq::empty());
        assert(before_space(rest) =~= letters@.subrange(from as int, to as int));
    }
    if to == from {
        return None;
    }
    Some(text_between(letters.as_slice(), from, to))
}

/// Whether a character is a decimal digit.
pub open spec fn is_digit(letter: char) -> bool {
    '0' <= letter && letter <= '9'
}

/// The decimal digits at the start of a text.
pub open spec fn leading_digits(text: Seq<char>) -> Seq<char>
    decreases text.len(),
{
    if text.len() == 0 || !is_digit(text[0]) {
        Seq::empty()
    } else {
        seq![text[0]] + leading_digits(text.drop_first())
    }
}

/// The number that decimal digits write.
pub open spec fn digits_value(digits: Seq<char>) -> nat
    decreases digits.len(),
{
    if digits.len() == 0 {
        0
    } else {
        (digits_value(digits.drop_last()) * 10 + (digits.last() as u32 - 48)) as nat
    }
}

/// The number that the digits at the start of a text write, when it fits in 32 bits.
pub open spec fn leading_number_of(text: Seq<char>) -> Option<u32> {
    let digits = leading_digits(text);
    if digits.len() == 0 || digits_value(digits) > u32::MAX {
        None
    } else {
        Some(digits_value(digits) as u32)
    }
}

proof fn lemma_digits_grow(digits: Seq<char>, count: int)
    requires
        0 <= count <= digits.len(),
        forall|i: int| 0 <= i < digits.len() ==> is_digit(#[trigger] digits[i]),
    ensures
        digits_value(digits.take(count)) <= digits_value(digits),
    decreases digits.len() - count,
{
    if count == digits.len() {
        assert(digits.take(count) =~= digits);
    } else {
        lemma_digits_grow(digits, count + 1);
        let longer = digits.take(count + 1);
        assert(longer.drop_last() =~= digits.take(count));
        assert(is_digit(digits[count]));
        assert(longer.last() == digits[count]);
    }
}

proof fn lemma_leading_digits(text: Seq<char>, count: int)
    requires
        0 <= count <= text.len(),
        forall|i: int| 0 <= i < count ==> is_digit(#[trigger] text[i]),
        count == text.len() || !is_digit(text[count]),
    ensures
        leading_digits(text) == text.take(count),
    decreases count,
{
    if count == 0 {
        assert(text.take(0) =~= Seq::empty());
    } else {
        let rest = text.drop_first();
        assert(is_digit(text[0]));
        assert forall|i: int| 0 <= i < count - 1 implies is_digit(#[trigger] rest[i]) by {
            assert(rest[i] == text[i + 1]);
        }
        if count < text.len() {
            assert(rest[count - 1] == text[count]);
        }
        lemma_leading_digits(rest, count - 1);
        assert(text.take(count) =~= seq![text[0]] + rest.take(count - 1));
    }
}

/// The number that the digits at the start of `letters` write, when it fits in 32 bits.
pub fn leading_number(letters: &[char]) -> (number: Option<u32>)
    ensures
        number == leading_number_of(letters@),
{
    let mut count: usize = 0;
    while count < letters.len() && '0' <= letters[count] && letters[count] <= '9'
        invariant
            count <= letters@.len(),
            forall|i: int| 0 <= i < count ==> is_digit(#[trigger] letters@[i]),
        decreases letters@.len() - count,
    {
        count = count + 1;
    }
    let ghost digits = letters@.take(count as int);
    proof {
        lemma_leading_digits(letters@, count as int);
        assert forall|i: int| 0 <= i < digits.len() implies is_digit(#[trigger] digits[i]) by {
            assert(digits[i] == letters@[i]);
        }
    }
    if count == 0 {
        return None;
    }
    let mut value: u64 = 0;
    let mut index: usize = 0;
    assert(digits.take(0) =~= Seq::empty());
    while index < count
        invariant
            index <= count <= letters@.len(),
            digits == letters@.take(count as int),
            digits == leading_digits(letters@),
            count > 0,
            forall|i: int| 0 <= i < digits.len() ==> is_digit(#[trigger] digits[i]),
            value == digits_value(digits.take(index as int)),
            value <= u32::MAX,
        decreases count - index,
    {
        let letter: char = letters[index];
        proof {
            assert(digits[index as int] == letter);
            assert(is_digit(digits[index as int]));
            let longer = digits.take(index + 1);
            assert(longer.drop_last() =~= digits.take(index as int));
            assert(longer.last() == letter);
            lemma_digits_grow(digits, index + 1);
        }
        let code: u32 = letter as u32;
        value = value * 10 + (code - 48) as u64;
        if value > 0xffff_ffff {
            return None;
        }
        index = index + 1;
    }
    assert(digits.take(index as int) =~= digits);
    Some(value as u32)
}

/// Where `letter` first stands in a text, at or after `from`.
pub open spec fn letter_place(text: Seq<char>, letter: char, from: int) -> Option<int>
    decreases text.len() - from,
{
    if from < 0 || from >= text.len() {
        None
    } else if text[from] == letter {
        Some(from)
    } else {
        letter_place(text, letter, from + 1)
    }
}

/// Finds the first place of `letter`, at or after `from`.
pub fn find_letter(letters: &[char], letter: char, from: usize) -> (place: Option<usize>)
    requires
        from <= letters@.len(),
    ensures
        match place {
            Some(found) => letter_place(letters@, letter, from as int) == Some(found as int)
                && from <= found < letters@.len(),
            None => letter_place(letters@, letter, from as int) is None,
        },
{
    let mut index: usize = from;
    while index < letters.len()
        invariant
            from <= index <= letters@.len(),
            letter_place(letters@, letter, from as int) == letter_place(
                letters@,
                letter,
                index as int,
            ),
        decreases letters@.len() - index,
    {
        if letters[index] == letter {
            return Some(index);
        }
        index = index + 1;
    }
    None
}

/// What follows `prefix` in a text.
pub open spec fn text_after(text: Seq<char>, prefix: Seq<char>) -> Option<Seq<char>> {
    if prefix.is_prefix_of(text) {
        Some(text.skip(prefix.len() as int))
    } else {
        None
    }
}

/// Takes `prefix` off the front of a text.
pub fn strip_text(text: &str, prefix: &str) -> (rest: Option<String>)
    ensures
        optional_text(rest) == text_after(text@, prefix@),
{
    let letters = characters(text);
    let start = characters(prefix);
    if start.len() > letters.len() {
        return None;
    }
    let mut index: usize = 0;
    while index < start.len()
        invariant
            index <= start@.len() <= letters@.len(),
            letters@ == text@,
            start@ == prefix@,
            forall|i: int| 0 <= i < index ==> #[trigger] start@[i] == letters@[i],
        decreases start@.len() - index,
    {
        if letters[index] != start[index] {
            proof {
                if prefix@.is_prefix_of(text@) {
                    assert(prefix@[index as int] == text@[index as int]);
                }
            }
            return None;
        }
        index = index + 1;
    }
    let total: usize = letters.len();
    let rest = text_between(letters.as_slice(), start.len(), total);
    proof {
        assert(prefix@ =~= text@.subrange(0, prefix@.len() as int));
        assert(rest@ =~= text@.skip(prefix@.len() as int));
    }
    Some(rest)
}

/// A bounded text is the longest front of the text that fits the limit: it is a prefix, it fits,
/// and no longer prefix does. A text that fits is kept whole.
pub proof fn law_bounded_texts_are_the_longest_that_fit(text: Seq<char>, limit: nat, longer: int)
    requires
        0 <= longer <= text.len(),
    ensures
        bounded_text(text, limit).is_prefix_of(text),
        encode_utf8(bounded_text(text, limit)).len() <= limit,
        longer > bounded_text(text, limit).len() ==> encode_utf8(text.take(longer)).len() > limit,
        encode_utf8(text).len() <= limit ==> bounded_text(text, limit) == text,
    decreases text.len(),
{
    lemma_bounded_text_fits(text, limit);
    if text.len() > 0 && byte_len(text) > limit {
        let shorter = text.drop_last();
        if longer < text.len() {
            law_bounded_texts_are_the_longest_that_fit(shorter, limit, longer);
            assert(shorter.take(longer) =~= text.take(longer));
        } else {
            law_bounded_texts_are_the_longest_that_fit(shorter, limit, 0);
            assert(text.take(longer) =~= text);
        }
        assert(shorter.is_prefix_of(text));
    } else {
        assert(text.take(longer) =~= text || longer < text.len());
    }
}

/// A trimmed text is what stands between the white space at both ends of a text, and neither starts
/// nor ends with white space itself.
pub proof fn law_trimming_takes_white_space_off_both_ends(text: Seq<char>) -> (around: (
    Seq<char>,
    Seq<char>,
))
    ensures
        text == around.0 + trimmed(text) + around.1,
        forall|i: int| 0 <= i < around.0.len() ==> is_white_space(#[trigger] around.0[i]),
        forall|i: int| 0 <= i < around.1.len() ==> is_white_space(#[trigger] around.1[i]),
        trimmed(text).len() > 0 ==> !is_white_space(trimmed(text)[0]) && !is_white_space(
            trimmed(text).last(),
        ),
{
    let head = lemma_trimmed_start(text);
    let tail = lemma_trimmed_end(trimmed_start(text));
    let kept = trimmed(text);
    assert(text =~= head + kept + tail);
    if kept.len() > 0 {
        assert(trimmed_start(text)[0] == kept[0]);
    }
    (head, tail)
}

proof fn lemma_trimmed_start(text: Seq<char>) -> (head: Seq<char>)
    ensures
        text == head + trimmed_start(text),
        forall|i: int| 0 <= i < head.len() ==> is_white_space(#[trigger] head[i]),
        trimmed_start(text).len() > 0 ==> !is_white_space(trimmed_start(text)[0]),
    decreases text.len(),
{
    if text.len() > 0 && is_white_space(text[0]) {
        let rest = lemma_trimmed_start(text.drop_first());
        let head = seq![text[0]] + rest;
        assert(text =~= seq![text[0]] + text.drop_first());
        assert(text =~= head + trimmed_start(text));
        head
    } else {
        assert(text =~= Seq::<char>::empty() + text);
        Seq::empty()
    }
}

proof fn lemma_trimmed_end(text: Seq<char>) -> (tail: Seq<char>)
    ensures
        text == trimmed_end(text) + tail,
        forall|i: int| 0 <= i < tail.len() ==> is_white_space(#[trigger] tail[i]),
        trimmed_end(text).len() > 0 ==> !is_white_space(trimmed_end(text).last()),
    decreases text.len(),
{
    if text.len() > 0 && is_white_space(text.last()) {
        let rest = lemma_trimmed_end(text.drop_last());
        let tail = rest.push(text.last());
        assert(text =~= text.drop_last().push(text.last()));
        assert(text =~= trimmed_end(text) + tail);
        tail
    } else {
        assert(text =~= text + Seq::<char>::empty());
        Seq::empty()
    }
}

} // verus!
