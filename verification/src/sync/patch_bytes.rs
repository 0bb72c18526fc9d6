//! The byte form of patches and banks.
//!
//! A length is written as eight bytes and a parameter value as four, lowest
//! byte first. A patch is the length of its name, the name with one byte per
//! character, the number of its values, and the values. A bank is the number
//! of its patches and the patches, one after the other.

use vstd::prelude::*;
use crate::sync::patch_bank::{
    is_ascii_char, is_ascii_text, patch_data, PatchData, SerdePatch, SerdePatchBank,
};
use crate::text::push_char;

verus! {

/// The four bytes of a value, lowest first.
#[verifier::opaque]
pub open spec fn value_bytes(value: u32) -> Seq<u8> {
    seq![
        (value % 256) as u8,
        (value / 256 % 256) as u8,
        (value / 65536 % 256) as u8,
        (value / 16777216) as u8,
    ]
}

/// The value that four bytes from `at` on stand for.
#[verifier::opaque]
pub open spec fn value_at(bytes: Seq<u8>, at: int) -> u32 {
    (bytes[at] + 256 * bytes[at + 1] + 65536 * bytes[at + 2] + 16777216 * bytes[at + 3]) as u32
}

/// The eight bytes of a length: its lower and its upper half, each as a
/// value.
#[verifier::opaque]
pub open spec fn length_bytes(length: u64) -> Seq<u8> {
    value_bytes((length % 0x1_0000_0000) as u32) + value_bytes((length / 0x1_0000_0000) as u32)
}

/// The length that eight bytes from `at` on stand for.
#[verifier::opaque]
pub open spec fn length_at(bytes: Seq<u8>, at: int) -> u64 {
    (value_at(bytes, at) + 0x1_0000_0000 * value_at(bytes, at + 4)) as u64
}

/// The bytes of a name: one per character.
pub open spec fn name_bytes(name: Seq<char>) -> Seq<u8> {
    Seq::new(name.len(), |i: int| name[i] as u8)
}

/// The bytes of the first `n` values.
pub open spec fn values_bytes(values: Seq<u32>, n: int) -> Seq<u8>
    decreases n,
{
    if n <= 0 {
        Seq::empty()
    } else {
        values_bytes(values, n - 1) + value_bytes(values[n - 1])
    }
}

/// Whether a patch can be written out: its name is ASCII, and the lengths
/// can be counted.
pub open spec fn encodable(patch: PatchData) -> bool {
    &&& patch.name.len() <= u64::MAX
    &&& patch.values.len() <= u64::MAX
    &&& forall|i: int| 0 <= i < patch.name.len() ==> is_ascii_char(#[trigger] patch.name[i])
}

/// The bytes of a patch.
pub open spec fn patch_bytes(patch: PatchData) -> Seq<u8> {
    length_bytes(patch.name.len() as u64) + name_bytes(patch.name) + length_bytes(
        patch.values.len() as u64,
    ) + values_bytes(patch.values, patch.values.len() as int)
}

/// The bytes of the first `n` patches.
pub open spec fn patches_bytes(patches: Seq<PatchData>, n: int) -> Seq<u8>
    decreases n,
{
    if n <= 0 {
        Seq::empty()
    } else {
        patches_bytes(patches, n - 1) + patch_bytes(patches[n - 1])
    }
}

/// The bytes of a bank.
pub open spec fn bank_bytes(patches: Seq<PatchData>) -> Seq<u8> {
    length_bytes(patches.len() as u64) + patches_bytes(patches, patches.len() as int)
}

/// Why bytes could not be read.
#[derive(Debug, Copy, Clone, PartialEq, Eq, Structural)]
pub enum PatchDecodeError {
    /// The bytes end before what they announce.
    UnexpectedEnd,
    /// A name holds a byte that is no ASCII character.
    InvalidName,
    /// Bytes are left over.
    TrailingData,
}

/// What reading gives: what was read and the place where reading stopped,
/// or the reason why nothing could be read.
pub enum Parsed<T> {
    Done(T, int),
    Failed(PatchDecodeError),
}

/// The values that the bytes from `at` on hold, `count` of them.
pub open spec fn values_at(bytes: Seq<u8>, at: int, count: int) -> Seq<u32> {
    Seq::new(count as nat, |i: int| value_at(bytes, at + 4 * i))
}

/// The name that the bytes from `at` on hold, `length` characters long.
pub open spec fn name_at(bytes: Seq<u8>, at: int, length: int) -> Seq<char> {
    Seq::new(length as nat, |i: int| bytes[at + i] as char)
}

/// Whether the `length` bytes from `at` on are ASCII characters.
pub open spec fn ascii_at(bytes: Seq<u8>, at: int, length: int) -> bool {
    forall|i: int| 0 <= i < length ==> #[trigger] bytes[at + i] < 128
}

/// Reads a patch that starts at `at`.
pub open spec fn parse_patch(bytes: Seq<u8>, at: int) -> Parsed<PatchData> {
    if at + 8 > bytes.len() {
        Parsed::Failed(PatchDecodeError::UnexpectedEnd)
    } else {
        let name_length = length_at(bytes, at) as int;
        if at + 8 + name_length + 8 > bytes.len() {
            Parsed::Failed(PatchDecodeError::UnexpectedEnd)
        } else if !ascii_at(bytes, at + 8, name_length) {
            Parsed::Failed(PatchDecodeError::InvalidName)
        } else {
            let count = length_at(bytes, at + 8 + name_length) as int;
            if at + 16 + name_length + 4 * count > bytes.len() {
                Parsed::Failed(PatchDecodeError::UnexpectedEnd)
            } else {
                Parsed::Done(
                    PatchData {
                        name: name_at(bytes, at + 8, name_length),
                        values: values_at(bytes, at + 16 + name_length, count),
                    },
                    at + 16 + name_length + 4 * count,
                )
            }
        }
    }
}

/// Reads `count` patches, the first of which starts at `at`; reading stops
/// at the first patch that cannot be read.
pub open spec fn parse_patches(bytes: Seq<u8>, at: int, count: int) -> Parsed<Seq<PatchData>>
    decreases count,
{
    if count <= 0 {
        Parsed::Done(Seq::empty(), at)
    } else {
        match parse_patches(bytes, at, count - 1) {
            Parsed::Failed(error) => Parsed::Failed(error),
            Parsed::Done(patches, next) => match parse_patch(bytes, next) {
                Parsed::Failed(error) => Parsed::Failed(error),
                Parsed::Done(patch, end) => Parsed::Done(patches.push(patch), end),
            },
        }
    }
}

/// What reading the bytes as one patch gives.
pub open spec fn parsed_patch(bytes: Seq<u8>) -> Result<PatchData, PatchDecodeError> {
    match parse_patch(bytes, 0) {
        Parsed::Failed(error) => Err(error),
        Parsed::Done(patch, end) => if end == bytes.len() {
            Ok(patch)
        } else {
            Err(PatchDecodeError::TrailingData)
        },
    }
}

/// What reading the bytes as a bank gives.
pub open spec fn parsed_bank(bytes: Seq<u8>) -> Result<Seq<PatchData>, PatchDecodeError> {
    if bytes.len() < 8 {
        Err(PatchDecodeError::UnexpectedEnd)
    } else {
        match parse_patches(bytes, 8, length_at(bytes, 0) as int) {
            Parsed::Failed(error) => Err(error),
            Parsed::Done(patches, end) => if end == bytes.len() {
                Ok(patches)
            } else {
                Err(PatchDecodeError::TrailingData)
            },
        }
    }
}

/// Where a stretch of bytes is two stretches joined, each of the two is
/// found at its place.
pub proof fn lemma_split(bytes: Seq<u8>, at: int, first: Seq<u8>, second: Seq<u8>)
    requires
        0 <= at,
        at + first.len() + second.len() <= bytes.len(),
        bytes.subrange(at, at + first.len() + second.len()) == first + second,
    ensures
        bytes.subrange(at, at + first.len()) == first,
        bytes.subrange(at + first.len(), at + first.len() + second.len()) == second,
{
    let whole = bytes.subrange(at, at + first.len() + second.len());
    assert forall|i: int| 0 <= i < first.len() implies bytes.subrange(at, at + first.len())[i]
        == first[i] by {
        assert(whole[i] == (first + second)[i]);
    }
    assert forall|i: int| 0 <= i < second.len() implies bytes.subrange(
        at + first.len(),
        at + first.len() + second.len(),
    )[i] == second[i] by {
        assert(whole[first.len() + i] == (first + second)[first.len() + i]);
    }
    assert(bytes.subrange(at, at + first.len()) =~= first);
    assert(bytes.subrange(at + first.len(), at + first.len() + second.len()) =~= second);
}

/// The bytes of a value stand for that value.
pub proof fn lemma_value_at(bytes: Seq<u8>, at: int, value: u32)
    requires
        0 <= at,
        at + 4 <= bytes.len(),
        bytes.subrange(at, at + 4) == value_bytes(value),
    ensures
        value_at(bytes, at) == value,
{
    reveal(value_bytes);
    reveal(value_at);
    let part = bytes.subrange(at, at + 4);
    assert(part[0] == bytes[at]);
    assert(part[1] == bytes[at + 1]);
    assert(part[2] == bytes[at + 2]);
    assert(part[3] == bytes[at + 3]);
}

/// The bytes of a length stand for that length.
pub proof fn lemma_length_at(bytes: Seq<u8>, at: int, length: u64)
    requires
        0 <= at,
        at + 8 <= bytes.len(),
        bytes.subrange(at, at + 8) == length_bytes(length),
    ensures
        length_at(bytes, at) == length,
{
    reveal(length_bytes);
    reveal(length_at);
    lemma_value_bytes_len((length % 0x1_0000_0000) as u32);
    lemma_value_bytes_len((length / 0x1_0000_0000) as u32);
    let low = value_bytes((length % 0x1_0000_0000) as u32);
    let high = value_bytes((length / 0x1_0000_0000) as u32);
    lemma_split(bytes, at, low, high);
    lemma_value_at(bytes, at, (length % 0x1_0000_0000) as u32);
    lemma_value_at(bytes, at + 4, (length / 0x1_0000_0000) as u32);
}

/// A value takes four bytes and a length eight.
pub proof fn lemma_value_bytes_len(value: u32)
    ensures
        value_bytes(value).len() == 4,
{
    reveal(value_bytes);
}

/// A length takes eight bytes.
pub proof fn lemma_length_bytes_len(length: u64)
    ensures
        length_bytes(length).len() == 8,
{
    reveal(length_bytes);
    lemma_value_bytes_len((length % 0x1_0000_0000) as u32);
    lemma_value_bytes_len((length / 0x1_0000_0000) as u32);
}

/// The bytes of an ASCII name stand for that name.
pub proof fn lemma_name_at(bytes: Seq<u8>, at: int, name: Seq<char>)
    requires
        0 <= at,
        at + name.len() <= bytes.len(),
        bytes.subrange(at, at + name.len()) == name_bytes(name),
        forall|i: int| 0 <= i < name.len() ==> is_ascii_char(#[trigger] name[i]),
    ensures
        ascii_at(bytes, at, name.len() as int),
        name_at(bytes, at, name.len() as int) == name,
{
    let found = bytes.subrange(at, at + name.len());
    assert forall|i: int| 0 <= i < name.len() implies #[trigger] bytes[at + i] < 128 by {
        assert(found[i] == bytes[at + i]);
        assert(name_bytes(name)[i] == name[i] as u8);
        assert(is_ascii_char(name[i]));
        lemma_ascii_byte(name[i]);
    }
    assert forall|i: int| 0 <= i < name.len() implies name_at(bytes, at, name.len() as int)[i]
        == name[i] by {
        assert(found[i] == bytes[at + i]);
        assert(name_bytes(name)[i] == name[i] as u8);
        assert(is_ascii_char(name[i]));
        lemma_ascii_byte(name[i]);
    }
    assert(name_at(bytes, at, name.len() as int) =~= name);
}

/// Each value takes four bytes.
pub proof fn lemma_values_bytes_len(values: Seq<u32>, n: int)
    requires
        0 <= n,
    ensures
        values_bytes(values, n).len() == 4 * n,
    decreases n,
{
    if n > 0 {
        lemma_values_bytes_len(values, n - 1);
        lemma_value_bytes_len(values[n - 1]);
    }
}

/// The bytes of values stand for those values.
pub proof fn lemma_values_at(bytes: Seq<u8>, at: int, values: Seq<u32>, n: int)
    requires
        0 <= at,
        0 <= n <= values.len(),
        at + 4 * n <= bytes.len(),
        bytes.subrange(at, at + 4 * n) == values_bytes(values, n),
    ensures
        values_at(bytes, at, n) == values.subrange(0, n),
    decreases n,
{
    if n > 0 {
        lemma_values_bytes_len(values, n - 1);
        lemma_value_bytes_len(values[n - 1]);
        lemma_split(bytes, at, values_bytes(values, n - 1), value_bytes(values[n - 1]));
        lemma_values_at(bytes, at, values, n - 1);
        lemma_value_at(bytes, at + 4 * (n - 1), values[n - 1]);
        assert forall|i: int| 0 <= i < n implies values_at(bytes, at, n)[i] == values.subrange(
            0,
            n,
        )[i] by {
            if i < n - 1 {
                assert(values_at(bytes, at, n - 1)[i] == values.subrange(0, n - 1)[i]);
            }
        }
    }
    assert(values_at(bytes, at, n) =~= values.subrange(0, n));
}

/// The length in bytes of a patch.
pub open spec fn patch_len(patch: PatchData) -> int {
    (16 + patch.name.len() + 4 * patch.values.len()) as int
}

/// A patch that was written out is read back as it was: bytes that hold
/// the byte form of a patch at some place are read there as that patch, up
/// to the end of its byte form.
pub proof fn lemma_patch_round_trip(bytes: Seq<u8>, at: int, patch: PatchData)
    requires
        encodable(patch),
        0 <= at,
        at + patch_len(patch) <= bytes.len(),
        bytes.subrange(at, at + patch_len(patch)) == patch_bytes(patch),
    ensures
        patch_bytes(patch).len() == patch_len(patch),
        parse_patch(bytes, at) == Parsed::Done(patch, at + patch_len(patch)),
{
    let n = patch.name.len() as int;
    let m = patch.values.len() as int;
    let head = length_bytes(n as u64);
    let name = name_bytes(patch.name);
    let count = length_bytes(m as u64);
    let values = values_bytes(patch.values, m);
    lemma_values_bytes_len(patch.values, m);
    lemma_length_bytes_len(n as u64);
    lemma_length_bytes_len(m as u64);
    assert(patch_bytes(patch) == ((head + name) + count) + values);
    lemma_split(bytes, at, (head + name) + count, values);
    lemma_split(bytes, at, head + name, count);
    lemma_split(bytes, at, head, name);
    lemma_length_at(bytes, at, n as u64);
    lemma_length_at(bytes, at + 8 + n, m as u64);
    lemma_values_at(bytes, at + 16 + n, patch.values, m);
    assert(patch.values.subrange(0, m) =~= patch.values);
    lemma_name_at(bytes, at + 8, patch.name);
}

/// An ASCII character is the character of its byte.
pub proof fn lemma_ascii_byte(c: char)
    requires
        is_ascii_char(c),
    ensures
        (c as u8) as char == c,
        (c as u8) < 128,
{
}

/// The length in bytes of the first `n` patches.
pub open spec fn patches_len(patches: Seq<PatchData>, n: int) -> int
    decreases n,
{
    if n <= 0 {
        0
    } else {
        patches_len(patches, n - 1) + patch_len(patches[n - 1])
    }
}

/// The byte form of patches is as long as its parts together.
pub proof fn lemma_patches_bytes_len(patches: Seq<PatchData>, n: int)
    requires
        0 <= n <= patches.len(),
    ensures
        patches_bytes(patches, n).len() == patches_len(patches, n),
        patches_len(patches, n) >= 0,
    decreases n,
{
    if n > 0 {
        lemma_patches_bytes_len(patches, n - 1);
        lemma_patch_bytes_len(patches[n - 1]);
    }
}

/// The byte form of a patch is sixteen bytes for its two lengths, a byte
/// for each character of its name and four for each value.
pub proof fn lemma_patch_bytes_len(patch: PatchData)
    ensures
        patch_bytes(patch).len() == patch_len(patch),
{
    lemma_values_bytes_len(patch.values, patch.values.len() as int);
    lemma_length_bytes_len(patch.name.len() as u64);
    lemma_length_bytes_len(patch.values.len() as u64);
}

/// Patches that were written out one after the other are read back as
/// they were.
pub proof fn lemma_patches_round_trip(bytes: Seq<u8>, at: int, patches: Seq<PatchData>, n: int)
    requires
        0 <= n <= patches.len(),
        forall|i: int| 0 <= i < n ==> encodable(#[trigger] patches[i]),
        0 <= at,
        at + patches_len(patches, n) <= bytes.len(),
        bytes.subrange(at, at + patches_len(patches, n)) == patches_bytes(patches, n),
    ensures
        parse_patches(bytes, at, n) == Parsed::Done(
            patches.subrange(0, n),
            at + patches_len(patches, n),
        ),
    decreases n,
{
    if n > 0 {
        let before = patches_bytes(patches, n - 1);
        let last = patch_bytes(patches[n - 1]);
        lemma_patches_bytes_len(patches, n - 1);
        lemma_patch_bytes_len(patches[n - 1]);
        lemma_split(bytes, at, before, last);
        lemma_patches_round_trip(bytes, at, patches, n - 1);
        lemma_patch_round_trip(bytes, at + patches_len(patches, n - 1), patches[n - 1]);
        assert(patches.subrange(0, n - 1).push(patches[n - 1]) =~= patches.subrange(0, n));
    } else {
        assert(patches.subrange(0, 0) =~= Seq::<PatchData>::empty());
    }
}

/// Reading what was written of a patch gives the patch back.
pub proof fn lemma_patch_bytes_parse(patch: PatchData)
    requires
        encodable(patch),
    ensures
        parsed_patch(patch_bytes(patch)) == Ok::<PatchData, PatchDecodeError>(patch),
{
    let bytes = patch_bytes(patch);
    lemma_patch_bytes_len(patch);
    assert(bytes.subrange(0, bytes.len() as int) =~= bytes);
    lemma_patch_round_trip(bytes, 0, patch);
}

/// Reading what was written of a bank gives its patches back.
pub proof fn lemma_bank_bytes_parse(patches: Seq<PatchData>)
    requires
        patches.len() <= u64::MAX,
        forall|i: int| 0 <= i < patches.len() ==> encodable(#[trigger] patches[i]),
    ensures
        parsed_bank(bank_bytes(patches)) == Ok::<Seq<PatchData>, PatchDecodeError>(patches),
{
    let n = patches.len() as int;
    let bytes = bank_bytes(patches);
    let head = length_bytes(n as u64);
    let body = patches_bytes(patches, n);
    lemma_length_bytes_len(n as u64);
    lemma_patches_bytes_len(patches, n);
    assert(bytes.subrange(0, 8 + body.len() as int) =~= head + body);
    lemma_split(bytes, 0, head, body);
    lemma_length_at(bytes, 0, n as u64);
    lemma_patches_round_trip(bytes, 8, patches, n);
    assert(patches.subrange(0, n) =~= patches);
}

/// Why a patch could not be written out.
#[derive(Debug, Copy, Clone, PartialEq, Eq, Structural)]
pub enum PatchEncodeError {
    /// The name holds a character that is not ASCII.
    InvalidName,
}

fn push_value(out: &mut Vec<u8>, value: u32)
    ensures
        final(out)@ == old(out)@ + value_bytes(value),
{
    reveal(value_bytes);
    out.push((value % 256) as u8);
    out.push((value / 256 % 256) as u8);
    out.push((value / 65536 % 256) as u8);
    out.push((value / 16777216) as u8);
    assert(out@ =~= old(out)@ + value_bytes(value));
}

fn push_length(out: &mut Vec<u8>, length: u64)
    ensures
        final(out)@ == old(out)@ + length_bytes(length),
{
    reveal(length_bytes);
    push_value(out, (length % 0x1_0000_0000) as u32);
    push_value(out, (length / 0x1_0000_0000) as u32);
    assert(out@ =~= old(out)@ + length_bytes(length));
}

fn read_value(bytes: &[u8], at: usize) -> (value: u32)
    requires
        at + 4 <= bytes@.len(),
    ensures
        value == value_at(bytes@, at as int),
{
    reveal(value_at);
    let b0: u32 = bytes[at] as u32;
    let b1: u32 = bytes[at + 1] as u32;
    let b2: u32 = bytes[at + 2] as u32;
    let b3: u32 = bytes[at + 3] as u32;
    b0 + 256 * b1 + 65536 * b2 + 16777216 * b3
}

fn read_length(bytes: &[u8], at: usize) -> (length: u64)
    requires
        at + 8 <= bytes@.len(),
    ensures
        length == length_at(bytes@, at as int),
{
    reveal(length_at);
    // The end of the bytes can be counted, so the places up to it can.
    let _end = bytes.len();
    let low: u64 = read_value(bytes, at) as u64;
    let high: u64 = read_value(bytes, at + 4) as u64;
    low + 0x1_0000_0000 * high
}

fn push_patch(out: &mut Vec<u8>, patch: &SerdePatch)
    requires
        encodable(patch@),
    ensures
        final(out)@ == old(out)@ + patch_bytes(patch@),
{
    broadcast use vstd::string::is_ascii_spec_bytes;

    let name = patch.name.as_str();
    assert(vstd::string::is_ascii(name)) by {
        assert forall|i: int| 0 <= i < name@.len() implies '\0' <= #[trigger] name@[i]
            <= '\u{7f}' by {
            assert(is_ascii_char(patch@.name[i]));
        }
    }
    let name_bytes_found = name.as_bytes();
    assert(name_bytes_found@ =~= name_bytes(patch@.name));
    push_length(out, name_bytes_found.len() as u64);
    let mut i: usize = 0;
    while i < name_bytes_found.len()
        invariant
            i <= name_bytes_found@.len(),
            name_bytes_found@ == name_bytes(patch@.name),
            out@ == old(out)@ + length_bytes(patch@.name.len() as u64) + name_bytes(
                patch@.name,
            ).subrange(0, i as int),
        decreases name_bytes_found@.len() - i,
    {
        out.push(name_bytes_found[i]);
        assert(name_bytes(patch@.name).subrange(0, i as int).push(name_bytes_found@[i as int])
            =~= name_bytes(patch@.name).subrange(0, i + 1));
        assert(out@ =~= old(out)@ + length_bytes(patch@.name.len() as u64) + name_bytes(
            patch@.name,
        ).subrange(0, i + 1));
        i += 1;
    }
    assert(name_bytes(patch@.name).subrange(0, i as int) =~= name_bytes(patch@.name));
    push_length(out, patch.parameters.len() as u64);
    let ghost head = old(out)@ + length_bytes(patch@.name.len() as u64) + name_bytes(patch@.name)
        + length_bytes(patch@.values.len() as u64);
    let mut j: usize = 0;
    while j < patch.parameters.len()
        invariant
            j <= patch.parameters@.len(),
            out@ == head + values_bytes(patch@.values, j as int),
        decreases patch.parameters@.len() - j,
    {
        push_value(out, patch.parameters[j]);
        assert(out@ =~= head + values_bytes(patch@.values, j + 1));
        j += 1;
    }
    assert(out@ =~= old(out)@ + patch_bytes(patch@));
}

impl SerdePatch {
    /// Whether the patch can be written out: whether its name is ASCII.
    pub fn name_is_ascii(&self) -> (ascii: bool)
        ensures
            ascii == encodable(self@),
            ascii == is_ascii_text(self.name@),
    {
        broadcast use vstd::string::is_ascii_spec_bytes;

        let name = self.name.as_str();
        let ascii = name.is_ascii();
        // What is held can be counted, so both lengths fit their fields.
        let _name_length = name.as_bytes().len();
        let _count = self.parameters.len();
        ascii
    }

    /// The byte form of the patch. A patch whose name is not ASCII has
    /// none.
    pub fn to_bytes(&self) -> (result: Result<Vec<u8>, PatchEncodeError>)
        ensures
            is_ascii_text(self.name@) ==> encodable(self@) && result.is_ok() && result.unwrap()@
                == patch_bytes(self@),
            !is_ascii_text(self.name@) ==> result == Err::<Vec<u8>, PatchEncodeError>(
                PatchEncodeError::InvalidName,
            ),
    {
        if !self.name_is_ascii() {
            return Err(PatchEncodeError::InvalidName);
        }
        let mut out: Vec<u8> = Vec::new();
        push_patch(&mut out, self);
        assert(out@ =~= patch_bytes(self@));
        Ok(out)
    }
}

/// What reading gave, in the form in which it is handed on.
pub open spec fn read_matches(
    result: Result<(SerdePatch, usize), PatchDecodeError>,
    parsed: Parsed<PatchData>,
) -> bool {
    match parsed {
        Parsed::Done(patch, end) => result.is_ok() && result.unwrap().0@ == patch
            && result.unwrap().1 == end,
        Parsed::Failed(error) => result == Err::<(SerdePatch, usize), PatchDecodeError>(error),
    }
}

fn read_patch(bytes: &[u8], at: usize) -> (result: Result<(SerdePatch, usize), PatchDecodeError>)
    requires
        at <= bytes@.len(),
    ensures
        read_matches(result, parse_patch(bytes@, at as int)),
{
    let total = bytes.len();
    if total - at < 8 {
        return Err(PatchDecodeError::UnexpectedEnd);
    }
    let name_length = read_length(bytes, at);
    let left = total - at - 8;
    if left < 8 || name_length > (left - 8) as u64 {
        return Err(PatchDecodeError::UnexpectedEnd);
    }
    let name_length = name_length as usize;
    let name_start = at + 8;
    let mut name = String::new();
    let mut i: usize = 0;
    while i < name_length
        invariant
            i <= name_length,
            total == bytes@.len(),
            name_start == at + 8,
            name_length == length_at(bytes@, at as int),
            name_start + name_length + 8 <= bytes@.len(),
            name@ == name_at(bytes@, name_start as int, i as int),
            ascii_at(bytes@, name_start as int, i as int),
        decreases name_length - i,
    {
        let byte = bytes[name_start + i];
        if byte >= 128 {
            assert(!ascii_at(bytes@, name_start as int, name_length as int)) by {
                assert(bytes@[name_start + i] >= 128);
            }
            return Err(PatchDecodeError::InvalidName);
        }
        push_char(&mut name, byte as char);
        assert(name@ =~= name_at(bytes@, name_start as int, i + 1));
        i += 1;
    }
    let count_start = name_start + name_length;
    let count = read_length(bytes, count_start);
    let values_start = count_start + 8;
    let left = total - values_start;
    if count > (left / 4) as u64 {
        return Err(PatchDecodeError::UnexpectedEnd);
    }
    let count = count as usize;
    let mut parameters: Vec<u32> = Vec::new();
    let mut j: usize = 0;
    while j < count
        invariant
            j <= count,
            total == bytes@.len(),
            values_start + 4 * count <= bytes@.len(),
            parameters@ == values_at(bytes@, values_start as int, j as int),
        decreases count - j,
    {
        parameters.push(read_value(bytes, values_start + 4 * j));
        assert(parameters@ =~= values_at(bytes@, values_start as int, j + 1));
        j += 1;
    }
    Ok((SerdePatch { name, parameters }, values_start + 4 * count))
}

impl SerdePatch {
    /// Reads a patch from its byte form.
    pub fn from_bytes(bytes: &[u8]) -> (result: Result<SerdePatch, PatchDecodeError>)
        ensures
            match parsed_patch(bytes@) {
                Ok(patch) => result.is_ok() && result.unwrap()@ == patch,
                Err(error) => result == Err::<SerdePatch, PatchDecodeError>(error),
            },
    {
        match read_patch(bytes, 0) {
            Err(error) => Err(error),
            Ok((patch, end)) => if end == bytes.len() {
                Ok(patch)
            } else {
                Err(PatchDecodeError::TrailingData)
            },
        }
    }
}

impl SerdePatchBank {
    /// Whether every name is ASCII.
    pub open spec fn names_are_ascii(&self) -> bool {
        forall|i: int|
            0 <= i < self.patches@.len() ==> is_ascii_text((#[trigger] self.patches@[i]).name@)
    }

    /// Whether the bank can be written out.
    pub open spec fn encodable(&self) -> bool {
        &&& self.patches@.len() <= u64::MAX
        &&& forall|i: int| 0 <= i < self.patches@.len() ==> encodable(#[trigger] self.patches@[i]@)
    }

    /// The byte form of the bank. A bank with a patch whose name is not
    /// ASCII has none.
    pub fn to_bytes(&self) -> (result: Result<Vec<u8>, PatchEncodeError>)
        ensures
            self.names_are_ascii() ==> self.encodable() && result.is_ok() && result.unwrap()@
                == bank_bytes(patch_data(self.patches@)),
            !self.names_are_ascii() ==> result == Err::<Vec<u8>, PatchEncodeError>(
                PatchEncodeError::InvalidName,
            ),
    {
        let ghost data = patch_data(self.patches@);
        let mut out: Vec<u8> = Vec::new();
        push_length(&mut out, self.patches.len() as u64);
        let mut i: usize = 0;
        while i < self.patches.len()
            invariant
                i <= self.patches@.len(),
                data == patch_data(self.patches@),
                forall|k: int| 0 <= k < i ==> encodable(#[trigger] self.patches@[k]@),
                forall|k: int| 0 <= k < i ==> is_ascii_text((#[trigger] self.patches@[k]).name@),
                out@ == length_bytes(self.patches@.len() as u64) + patches_bytes(data, i as int),
            decreases self.patches@.len() - i,
        {
            if !self.patches[i].name_is_ascii() {
                return Err(PatchEncodeError::InvalidName);
            }
            push_patch(&mut out, &self.patches[i]);
            assert(data[i as int] == self.patches@[i as int]@);
            assert(out@ =~= length_bytes(self.patches@.len() as u64) + patches_bytes(data, i + 1));
            i += 1;
        }
        Ok(out)
    }

    /// Reads a bank from its byte form.
    pub fn from_bytes(bytes: &[u8]) -> (result: Result<SerdePatchBank, PatchDecodeError>)
        ensures
            match parsed_bank(bytes@) {
                Ok(patches) => result.is_ok() && patch_data(result.unwrap().patches@) == patches,
                Err(error) => result == Err::<SerdePatchBank, PatchDecodeError>(error),
            },
    {
        if bytes.len() < 8 {
            return Err(PatchDecodeError::UnexpectedEnd);
        }
        let count = read_length(bytes, 0);
        let mut patches: Vec<SerdePatch> = Vec::new();
        let mut at: usize = 8;
        let mut read: u64 = 0;
        assert(patch_data(patches@) =~= Seq::<PatchData>::empty());
        while read < count
            invariant
                read <= count,
                count == length_at(bytes@, 0),
                8 <= at <= bytes@.len(),
                parse_patches(bytes@, 8, read as int) == Parsed::Done(patch_data(patches@), at as int),
            decreases count - read,
        {
            match read_patch(bytes, at) {
                Err(error) => {
                    proof {
                        lemma_parse_patches_fails(bytes@, 8, read as int + 1, count as int);
                    }
                    return Err(error);
                },
                Ok((patch, next)) => {
                    let ghost before = patch_data(patches@);
                    patches.push(patch);
                    assert(patch_data(patches@) =~= before.push(patch@));
                    at = next;
                },
            }
            read += 1;
        }
        if at == bytes.len() {
            Ok(SerdePatchBank { patches })
        } else {
            Err(PatchDecodeError::TrailingData)
        }
    }
}

/// Where a patch cannot be read, no greater number of patches can, for
/// the same reason.
pub proof fn lemma_parse_patches_fails(bytes: Seq<u8>, at: int, failed: int, count: int)
    requires
        failed <= count,
        parse_patches(bytes, at, failed) is Failed,
    ensures
        parse_patches(bytes, at, count) == parse_patches(bytes, at, failed),
    decreases count - failed,
{
    if failed < count {
        lemma_parse_patches_fails(bytes, at, failed, count - 1);
    }
}

} // verus!
