//! Words as the bytes that a buffer of the rendering backend holds.
use vstd::prelude::*;

verus! {

/// Byte `k` of a 32-bit word, byte 0 being the least significant.
pub open spec fn byte_of(word: u32, k: int) -> u8 {
    if k == 0 {
        (word % 0x100) as u8
    } else if k == 1 {
        (word / 0x100 % 0x100) as u8
    } else if k == 2 {
        (word / 0x1_0000 % 0x100) as u8
    } else {
        (word / 0x100_0000 % 0x100) as u8
    }
}

/// The bytes of a sequence of words as they lie in memory, four to a word,
/// the words in order: each word's least significant byte first on a
/// little-endian machine, and last on a big-endian one.
pub open spec fn in_memory(words: Seq<u32>, little_endian: bool) -> Seq<u8> {
    Seq::new(
        4 * words.len(),
        |i: int|
            byte_of(
                words[i / 4],
                if little_endian {
                    i % 4
                } else {
                    3 - i % 4
                },
            ),
    )
}

/// The bytes are those of the words in memory, on a machine of either byte
/// order.
pub open spec fn is_memory_of(bytes: Seq<u8>, words: Seq<u32>) -> bool {
    bytes == in_memory(words, true) || bytes == in_memory(words, false)
}

/// The bytes of the words as they lie in memory.
///
/// Calls `bytemuck::cast_slice` to see the words as bytes, and copies them.
/// Believed of it, not proved: that the bytes are those of the words, in
/// order, each word in the byte order of the machine, which is little-endian
/// or big-endian. The cast from 32-bit words to bytes cannot fail.
#[verifier::external_body]
pub(crate) fn cast_words(words: &Vec<u32>) -> (bytes: Vec<u8>)
    ensures
        is_memory_of(bytes@, words@),
{
    bytemuck::cast_slice::<u32, u8>(words.as_slice()).to_vec()
}

} // verus!
