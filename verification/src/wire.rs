use vstd::prelude::*;

verus! {

/// The four bytes of `value`, lowest byte first.
pub open spec fn u32_le(value: u32) -> Seq<u8> {
    seq![
        (value % 256) as u8,
        (value / 256 % 256) as u8,
        (value / 65536 % 256) as u8,
        (value / 16777216) as u8,
    ]
}

/// The four bytes of `value`, highest byte first.
pub open spec fn u32_be(value: u32) -> Seq<u8> {
    seq![
        (value / 16777216) as u8,
        (value / 65536 % 256) as u8,
        (value / 256 % 256) as u8,
        (value % 256) as u8,
    ]
}

/// The number whose bytes, lowest first, are the four bytes of `bytes` from
/// `offset` on.
pub open spec fn u32_from_le(bytes: Seq<u8>, offset: int) -> u32
    recommends
        0 <= offset,
        offset + 4 <= bytes.len(),
{
    (bytes[offset] + 256 * bytes[offset + 1] + 65536 * bytes[offset + 2] + 16777216
        * bytes[offset + 3]) as u32
}

/// `data` and `other` hold the same bytes.
pub fn bytes_equal(data: &[u8], other: &[u8]) -> (same: bool)
    ensures
        same == (data@ == other@),
{
    if data.len() != other.len() {
        return false;
    }
    let mut position: usize = 0;
    while position < data.len()
        invariant
            data@.len() == other@.len(),
            position <= data@.len(),
            forall|i: int| 0 <= i < position ==> data@[i] == other@[i],
        decreases data@.len() - position,
    {
        if data[position] != other[position] {
            return false;
        }
        position += 1;
    }
    assert(data@ =~= other@);
    true
}

/// Writes `value` as four bytes, lowest byte first.
pub fn u32_to_le_bytes(value: u32) -> (bytes: [u8; 4])
    ensures
        bytes@ == u32_le(value),
{
    let bytes = [
        (value % 256) as u8,
        (value / 256 % 256) as u8,
        (value / 65536 % 256) as u8,
        (value / 16777216) as u8,
    ];
    assert(bytes@ =~= u32_le(value));
    bytes
}

/// Writes `value` as four bytes, highest byte first.
pub fn u32_to_be_bytes(value: u32) -> (bytes: [u8; 4])
    ensures
        bytes@ == u32_be(value),
{
    let bytes = [
        (value / 16777216) as u8,
        (value / 65536 % 256) as u8,
        (value / 256 % 256) as u8,
        (value % 256) as u8,
    ];
    assert(bytes@ =~= u32_be(value));
    bytes
}

/// Reads the four bytes of `bytes` from `offset` on as a number, lowest byte
/// first.
pub fn u32_from_le_bytes(bytes: &[u8], offset: usize) -> (value: u32)
    requires
        offset + 4 <= bytes@.len(),
    ensures
        value == u32_from_le(bytes@, offset as int),
{
    bytes[offset] as u32 + 256 * (bytes[offset + 1] as u32) + 65536 * (bytes[offset + 2] as u32)
        + 16777216 * (bytes[offset + 3] as u32)
}

/// Reading back the four bytes that a number was written as gives the number,
/// wherever in a sequence they stand.
pub proof fn lemma_u32_le_round_trip(value: u32, before: Seq<u8>, after: Seq<u8>)
    ensures
        u32_le(value).len() == 4,
        u32_from_le(before + u32_le(value) + after, before.len() as int) == value,
{
    let whole = before + u32_le(value) + after;
    let at = before.len() as int;
    assert(whole[at] == u32_le(value)[0]);
    assert(whole[at + 1] == u32_le(value)[1]);
    assert(whole[at + 2] == u32_le(value)[2]);
    assert(whole[at + 3] == u32_le(value)[3]);
}

/// The four bytes that a number below 2^32 was put together from are its
/// four bytes.
proof fn lemma_u32_parts(b0: u8, b1: u8, b2: u8, b3: u8)
    ensures
        ({
            let value = b0 + 256 * b1 + 65536 * b2 + 16777216 * b3;
            &&& 0 <= value < 0x1_0000_0000
            &&& value % 256 == b0
            &&& value / 256 % 256 == b1
            &&& value / 65536 % 256 == b2
            &&& value / 16777216 == b3
        }),
{
    let value = b0 + 256 * b1 + 65536 * b2 + 16777216 * b3;
    let upper1 = b1 + 256 * b2 + 65536 * b3;
    let upper2 = b2 + 256 * b3;
    assert(value == 256 * upper1 + b0);
    assert(value / 256 == upper1);
    assert(upper1 == 256 * upper2 + b1);
    assert(value == 65536 * upper2 + (256 * b1 + b0));
    assert(value / 65536 == upper2);
    assert(value == 16777216 * b3 + (65536 * b2 + 256 * b1 + b0));
    assert(value / 16777216 == b3);
}

/// Four bytes are the bytes of the number that they read as.
pub proof fn lemma_u32_le_of_read(bytes: Seq<u8>, offset: int)
    requires
        0 <= offset,
        offset + 4 <= bytes.len(),
    ensures
        u32_le(u32_from_le(bytes, offset)) == bytes.subrange(offset, offset + 4),
{
    lemma_u32_parts(bytes[offset], bytes[offset + 1], bytes[offset + 2], bytes[offset + 3]);
    assert(u32_le(u32_from_le(bytes, offset)) =~= bytes.subrange(offset, offset + 4));
}

} // verus!
