//! SHA-256 digests over length-framed byte strings.

use sha2::Digest;
use vstd::prelude::*;
use vstd::string::*;
use vstd::utf8::*;

use crate::error::TemperError;
use crate::text::{byte_strings, lossy, lossy_text, text4, texts};

verus! {

/// The hexadecimal SHA-256 digest of a byte string.
pub uninterp spec fn sha256_text(bytes: Seq<u8>) -> Seq<char>;

/// Whether a character is a lower-case hexadecimal digit.
pub open spec fn is_hex_digit(letter: char) -> bool {
    ('0' <= letter && letter <= '9') || ('a' <= letter && letter <= 'f')
}

/// The `width` low bytes of `value`, most significant first.
pub open spec fn big_endian(value: nat, width: nat) -> Seq<u8>
    decreases width,
{
    if width == 0 {
        Seq::empty()
    } else {
        big_endian(value / 256, (width - 1) as nat).push((value % 256) as u8)
    }
}

/// Two hundred and fifty-six to the power `width`.
pub open spec fn byte_range(width: nat) -> nat
    decreases width,
{
    if width == 0 {
        1
    } else {
        256 * byte_range((width - 1) as nat)
    }
}

/// The values, each behind its length in eight bytes.
pub open spec fn framed_values(values: Seq<Seq<u8>>) -> Seq<u8>
    decreases values.len(),
{
    if values.len() == 0 {
        Seq::empty()
    } else {
        framed_values(values.drop_last()) + big_endian(values.last().len(), 8) + values.last()
    }
}

/// The number of values in eight bytes, and the framed values behind it.
pub open spec fn frame(values: Seq<Seq<u8>>) -> Seq<u8> {
    big_endian(values.len(), 8) + framed_values(values)
}

/// The UTF-8 bytes of each text.
pub open spec fn encoded(values: Seq<Seq<char>>) -> Seq<Seq<u8>> {
    values.map_values(|value: Seq<char>| encode_utf8(value))
}

/// Hashes a byte string with `sha2::Sha256::digest` and writes the digest in lower-case
/// hexadecimal. The contract claims that the text is a function of the bytes alone, and that
/// it is 64 lower-case hexadecimal digits.
#[verifier::external_body]
pub(crate) fn sha256_hex(bytes: &[u8]) -> (digest: String)
    ensures
        digest@ == sha256_text(bytes@),
        digest@.len() == 64,
        forall|i: int| 0 <= i < digest@.len() ==> is_hex_digit(#[trigger] digest@[i]),
{
    format!("{:x}", sha2::Sha256::digest(bytes))
}

proof fn lemma_big_endian_len(value: nat, width: nat)
    ensures
        big_endian(value, width).len() == width,
    decreases width,
{
    if width > 0 {
        lemma_big_endian_len(value / 256, (width - 1) as nat);
    }
}

/// A number below the range of its width can be read back from its bytes.
pub proof fn lemma_big_endian_injective(left: nat, right: nat, width: nat)
    requires
        left < byte_range(width),
        right < byte_range(width),
        big_endian(left, width) == big_endian(right, width),
    ensures
        left == right,
    decreases width,
{
    if width > 0 {
        let shorter = (width - 1) as nat;
        assert(big_endian(left, width).last() == (left % 256) as u8);
        assert(big_endian(right, width).last() == (right % 256) as u8);
        assert(left % 256 == right % 256);
        assert(big_endian(left, width).drop_last() =~= big_endian(left / 256, shorter));
        assert(big_endian(right, width).drop_last() =~= big_endian(right / 256, shorter));
        lemma_big_endian_injective(left / 256, right / 256, shorter);
    }
}

proof fn lemma_eight_bytes()
    ensures
        byte_range(8) == 0x1_0000_0000_0000_0000,
{
    reveal_with_fuel(byte_range, 9);
}

/// Whether the number of values and every length fit in eight bytes.
pub open spec fn frameable(values: Seq<Seq<u8>>) -> bool {
    &&& values.len() <= u64::MAX
    &&& forall|i: int| 0 <= i < values.len() ==> (#[trigger] values[i]).len() <= u64::MAX
}

/// The first framed value can be read off the front: framing behind a common suffix is unambiguous.
proof fn lemma_framed_values_front(values: Seq<Seq<u8>>)
    requires
        values.len() > 0,
    ensures
        framed_values(values) == big_endian(values[0].len(), 8) + values[0] + framed_values(
            values.drop_first(),
        ),
    decreases values.len(),
{
    if values.len() == 1 {
        assert(values.drop_last() =~= Seq::empty());
        assert(values.drop_first() =~= Seq::empty());
        reveal_with_fuel(framed_values, 2);
        assert(framed_values(values) =~= big_endian(values[0].len(), 8) + values[0]
            + framed_values(values.drop_first()));
    } else {
        lemma_framed_values_front(values.drop_last());
        assert(values.drop_last().drop_first() =~= values.drop_first().drop_last());
        assert(values.drop_first().last() == values.last());
        assert(framed_values(values) =~= big_endian(values[0].len(), 8) + values[0]
            + framed_values(values.drop_first()));
    }
}

proof fn lemma_framed_values_injective(left: Seq<Seq<u8>>, right: Seq<Seq<u8>>)
    requires
        left.len() == right.len(),
        frameable(left),
        frameable(right),
        framed_values(left) == framed_values(right),
    ensures
        left == right,
    decreases left.len(),
{
    if left.len() == 0 {
        assert(left =~= right);
    } else {
        lemma_framed_values_front(left);
        lemma_framed_values_front(right);
        lemma_eight_bytes();
        let a = left[0];
        let b = right[0];
        lemma_big_endian_len(a.len(), 8);
        lemma_big_endian_len(b.len(), 8);
        let bytes = framed_values(left);
        assert(bytes.subrange(0, 8) =~= big_endian(a.len(), 8));
        assert(bytes.subrange(0, 8) =~= big_endian(b.len(), 8));
        lemma_big_endian_injective(a.len(), b.len(), 8);
        assert(bytes.subrange(8, 8 + a.len() as int) =~= a);
        assert(bytes.subrange(8, 8 + b.len() as int) =~= b);
        let rest = bytes.subrange(8 + a.len() as int, bytes.len() as int);
        assert(rest =~= framed_values(left.drop_first()));
        assert(rest =~= framed_values(right.drop_first()));
        lemma_framed_values_injective(left.drop_first(), right.drop_first());
        assert(left =~= seq![a] + left.drop_first());
        assert(right =~= seq![b] + right.drop_first());
    }
}

/// Framing is unambiguous: two lists of byte strings with the same frame are the same list.
pub proof fn law_frame_is_unambiguous(left: Seq<Seq<u8>>, right: Seq<Seq<u8>>)
    requires
        frameable(left),
        frameable(right),
        frame(left) == frame(right),
    ensures
        left == right,
{
    lemma_eight_bytes();
    lemma_big_endian_len(left.len(), 8);
    lemma_big_endian_len(right.len(), 8);
    let bytes = frame(left);
    assert(bytes.subrange(0, 8) =~= big_endian(left.len(), 8));
    assert(bytes.subrange(0, 8) =~= big_endian(right.len(), 8));
    lemma_big_endian_injective(left.len(), right.len(), 8);
    let rest = bytes.subrange(8, bytes.len() as int);
    assert(rest =~= framed_values(left));
    assert(rest =~= framed_values(right));
    lemma_framed_values_injective(left, right);
}

/// Appends the `width` low bytes of `value`, most significant first.
pub fn push_big_endian(bytes: &mut Vec<u8>, value: u128, width: usize)
    ensures
        final(bytes)@ == old(bytes)@ + big_endian(value as nat, width as nat),
    decreases width,
{
    if width == 0 {
        assert(bytes@ =~= bytes@ + big_endian(value as nat, 0));
        return;
    }
    let ghost before = bytes@;
    push_big_endian(bytes, value / 256, width - 1);
    let low: u8 = (value % 256) as u8;
    bytes.push(low);
    proof {
        assert(bytes@ =~= before + big_endian(value as nat, width as nat));
    }
}

/// Appends a value behind its length in eight bytes.
pub fn push_framed(bytes: &mut Vec<u8>, value: &[u8])
    ensures
        final(bytes)@ == old(bytes)@ + big_endian(value@.len(), 8) + value@,
{
    push_big_endian(bytes, value.len() as u128, 8);
    bytes.extend_from_slice(value);
}

/// The frame of a list of byte strings.
pub fn frame_bytes(values: &Vec<Vec<u8>>) -> (bytes: Vec<u8>)
    ensures
        bytes@ == frame(byte_strings(values@)),
{
    let mut bytes: Vec<u8> = Vec::new();
    push_big_endian(&mut bytes, values.len() as u128, 8);
    let ghost head = bytes@;
    let ghost views = byte_strings(values@);
    let mut index: usize = 0;
    proof {
        assert(views.take(0) =~= Seq::empty());
        assert(bytes@ =~= head + framed_values(views.take(0)));
    }
    while index < values.len()
        invariant
            index <= values@.len(),
            views == byte_strings(values@),
            bytes@ == head + framed_values(views.take(index as int)),
        decreases values@.len() - index,
    {
        push_framed(&mut bytes, values[index].as_slice());
        proof {
            let next = views.take(index + 1);
            assert(next.drop_last() =~= views.take(index as int));
            assert(next.last() == values@[index as int]@);
            assert(bytes@ =~= head + framed_values(next));
        }
        index = index + 1;
    }
    proof {
        assert(views.take(index as int) =~= views);
        assert(head =~= big_endian(values@.len(), 8));
    }
    bytes
}

/// Length-framed digest over raw bytes. Framing keeps concatenation unambiguous.
pub fn framed_digest(values: &Vec<Vec<u8>>) -> (digest: String)
    ensures
        digest@ == sha256_text(frame(byte_strings(values@))),
        digest@.len() == 64,
        forall|i: int| 0 <= i < digest@.len() ==> is_hex_digit(#[trigger] digest@[i]),
{
    let bytes = frame_bytes(values);
    sha256_hex(bytes.as_slice())
}

/// The UTF-8 bytes of each text.
pub fn encode_texts(values: &Vec<String>) -> (bytes: Vec<Vec<u8>>)
    ensures
        byte_strings(bytes@) == encoded(texts(values@)),
{
    let mut bytes: Vec<Vec<u8>> = Vec::new();
    let mut index: usize = 0;
    while index < values.len()
        invariant
            index <= values@.len(),
            bytes@.len() == index,
            forall|i: int| 0 <= i < index ==> (#[trigger] bytes@[i])@ == encode_utf8(values@[i]@),
        decreases values@.len() - index,
    {
        bytes.push(vstd::slice::slice_to_vec(values[index].as_str().as_bytes()));
        index = index + 1;
    }
    assert(byte_strings(bytes@) =~= encoded(texts(values@)));
    bytes
}

/// Length-framed digest over ordered text values, sharing the byte framing so derived
/// aggregates cannot be forged by concatenation.
pub fn framed_text_digest(values: &Vec<String>) -> (digest: String)
    ensures
        digest@ == sha256_text(frame(encoded(texts(values@)))),
        digest@.len() == 64,
        forall|i: int| 0 <= i < digest@.len() ==> is_hex_digit(#[trigger] digest@[i]),
{
    framed_digest(&encode_texts(values))
}

/// What reading a file for its digest gave.
#[derive(Debug)]
pub enum FileRead {
    NotOpened(String),
    NotRead(String),
    Contents(Vec<u8>),
}

/// The digest of a file, or why there is none.
pub open spec fn file_digest(path: Seq<u8>, read: FileRead) -> Result<Seq<char>, Seq<char>> {
    match read {
        FileRead::NotOpened(error) => Err(
            "Could not open "@ + lossy_text(path) + " for hashing: "@ + error@,
        ),
        FileRead::NotRead(error) => Err(
            "Could not hash "@ + lossy_text(path) + ": "@ + error@,
        ),
        FileRead::Contents(bytes) => Ok(sha256_text(bytes@)),
    }
}

/// Digests a file.
pub fn sha256_file(path: &[u8], read: &FileRead) -> (digest: Result<String, TemperError>)
    ensures
        match digest {
            Ok(text) => {
                &&& file_digest(path@, *read) == Ok::<Seq<char>, Seq<char>>(text@)
                &&& text@.len() == 64
                &&& forall|i: int| 0 <= i < text@.len() ==> is_hex_digit(#[trigger] text@[i])
            },
            Err(error) => file_digest(path@, *read) == Err::<Seq<char>, Seq<char>>(error@),
        },
{
    match read {
        FileRead::NotOpened(error) => Err(
            TemperError::new(
                text4("Could not open ", lossy(path).as_str(), " for hashing: ", error.as_str()),
            ),
        ),
        FileRead::NotRead(error) => Err(
            TemperError::new(
                text4("Could not hash ", lossy(path).as_str(), ": ", error.as_str()),
            ),
        ),
        FileRead::Contents(bytes) => Ok(sha256_hex(bytes.as_slice())),
    }
}

} // verus!
