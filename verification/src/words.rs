//! 32-bit words as the device reads them: four bytes each, the least
//! significant first.

use vstd::prelude::*;

verus! {

/// The bytes of a word in the order of the device, least significant first.
pub open spec fn le_bytes(word: u32) -> Seq<u8> {
    seq![
        (word & 0xff) as u8,
        ((word >> 8) & 0xff) as u8,
        ((word >> 16) & 0xff) as u8,
        ((word >> 24) & 0xff) as u8,
    ]
}

/// The bytes of a word, most significant first.
pub open spec fn be_bytes(word: u32) -> Seq<u8> {
    seq![
        ((word >> 24) & 0xff) as u8,
        ((word >> 16) & 0xff) as u8,
        ((word >> 8) & 0xff) as u8,
        (word & 0xff) as u8,
    ]
}

/// The bytes of a run of words, each word least significant byte first.
pub open spec fn le_words(words: Seq<u32>) -> Seq<u8> {
    Seq::new(4 * words.len(), |i: int| le_bytes(words[i / 4])[i % 4])
}

/// The bytes of a run of words, each word most significant byte first.
pub open spec fn be_words(words: Seq<u32>) -> Seq<u8> {
    Seq::new(4 * words.len(), |i: int| be_bytes(words[i / 4])[i % 4])
}

/// The word whose device-order bytes are the first four of `bytes`.
pub open spec fn word_of(bytes: Seq<u8>) -> u32 {
    (bytes[0] as u32) | (bytes[1] as u32) << 8 | (bytes[2] as u32) << 16 | (bytes[3] as u32) << 24
}

/// `bytes` with the four bytes from `at` on exchanged for those of `word`.
pub open spec fn with_word(bytes: Seq<u8>, at: int, word: u32) -> Seq<u8> {
    Seq::new(
        bytes.len(),
        |i: int|
            if at <= i < at + 4 {
                le_bytes(word)[i - at]
            } else {
                bytes[i]
            },
    )
}

/// A word comes back unchanged from its bytes.
pub proof fn lemma_word_round_trip(word: u32)
    ensures
        le_bytes(word).len() == 4,
        word_of(le_bytes(word)) == word,
{
    assert(word & 0xff < 256 && (word >> 8) & 0xff < 256 && (word >> 16) & 0xff < 256 && (word
        >> 24) & 0xff < 256) by (bit_vector);
    assert(word == ((word & 0xff) | ((word >> 8) & 0xff) << 8 | ((word >> 16) & 0xff) << 16 | ((word
        >> 24) & 0xff) << 24)) by (bit_vector);
}

/// A word written into a buffer is the word read back from that place, and
/// no byte outside its four changes.
pub proof fn lemma_written_word_reads_back(bytes: Seq<u8>, at: int, word: u32)
    requires
        0 <= at,
        at + 4 <= bytes.len(),
    ensures
        with_word(bytes, at, word).len() == bytes.len(),
        word_of(with_word(bytes, at, word).subrange(at, at + 4)) == word,
        forall|i: int|
            0 <= i < bytes.len() && !(at <= i < at + 4) ==> with_word(bytes, at, word)[i]
                == bytes[i],
{
    lemma_word_round_trip(word);
    let stored = with_word(bytes, at, word).subrange(at, at + 4);
    assert(stored =~= le_bytes(word));
}

/// The memory of a slice of words, byte by byte, as `bytemuck::cast_slice`
/// shows it. The cast keeps the address and only changes the element type,
/// so each word appears as four bytes in the order in which the machine
/// stores it: on every target that is either least or most significant byte
/// first, the same for all words. The cast to bytes cannot fail, since a
/// byte has no alignment and its size divides every length.
#[verifier::external_body]
fn host_bytes(words: &[u32]) -> (bytes: Vec<u8>)
    ensures
        bytes@ == le_words(words@) || bytes@ == be_words(words@),
{
    bytemuck::cast_slice::<u32, u8>(words).to_vec()
}

fn byte_of(word: u32, k: usize) -> (res: u8)
    requires
        k < 4,
    ensures
        res == le_bytes(word)[k as int],
{
    proof {
        assert(word & 0xff < 256 && (word >> 8) & 0xff < 256 && (word >> 16) & 0xff < 256 && (word
            >> 24) & 0xff < 256) by (bit_vector);
    }
    if k == 0 {
        (word & 0xff) as u8
    } else if k == 1 {
        ((word >> 8) & 0xff) as u8
    } else if k == 2 {
        ((word >> 16) & 0xff) as u8
    } else {
        ((word >> 24) & 0xff) as u8
    }
}

fn is_device_order(words: &[u32], raw: &Vec<u8>) -> (res: bool)
    requires
        raw@.len() == 4 * words@.len(),
    ensures
        res == (raw@ == le_words(words@)),
{
    let mut i: usize = 0;
    while i < raw.len()
        invariant
            i <= raw@.len(),
            raw@.len() == 4 * words@.len(),
            forall|j: int| 0 <= j < i ==> raw@[j] == le_words(words@)[j],
        decreases raw@.len() - i,
    {
        if raw[i] != byte_of(words[i / 4], i % 4) {
            assert(raw@[i as int] != le_words(words@)[i as int]);
            return false;
        }
        i += 1;
    }
    assert(raw@ =~= le_words(words@));
    true
}

fn swap_each_word(raw: &Vec<u8>) -> (res: Vec<u8>)
    requires
        raw@.len() % 4 == 0,
    ensures
        res@.len() == raw@.len(),
        forall|i: int| 0 <= i < raw@.len() ==> res@[i] == raw@[4 * (i / 4) + 3 - i % 4],
{
    let mut out: Vec<u8> = Vec::new();
    let mut i: usize = 0;
    while i < raw.len()
        invariant
            i <= raw@.len(),
            raw@.len() % 4 == 0,
            out@.len() == i,
            forall|j: int| 0 <= j < i ==> out@[j] == raw@[4 * (j / 4) + 3 - j % 4],
        decreases raw@.len() - i,
    {
        let from: usize = i - i % 4 + (3 - i % 4);
        out.push(raw[from]);
        i += 1;
    }
    out
}

/// Brings the bytes of a run of words, as the machine stores them, into
/// the order of the device.
fn in_device_order(words: &[u32], raw: Vec<u8>) -> (bytes: Vec<u8>)
    requires
        raw@ == le_words(words@) || raw@ == be_words(words@),
    ensures
        bytes@ == le_words(words@),
{
    if is_device_order(words, &raw) {
        raw
    } else {
        let swapped: Vec<u8> = swap_each_word(&raw);
        assert(swapped@ =~= le_words(words@));
        swapped
    }
}

/// The bytes that carry `words` to the device.
pub fn device_bytes(words: &[u32]) -> (bytes: Vec<u8>)
    ensures
        bytes@ == le_words(words@),
{
    let raw: Vec<u8> = host_bytes(words);
    in_device_order(words, raw)
}

/// The word stored in the four bytes from `at` on.
pub fn read_word(bytes: &Vec<u8>, at: usize) -> (word: u32)
    requires
        at + 4 <= bytes@.len(),
    ensures
        word == word_of(bytes@.subrange(at as int, at + 4)),
{
    let len: usize = bytes.len();
    assert(at + 4 <= len);
    let b0: u32 = bytes[at] as u32;
    let b1: u32 = bytes[at + 1] as u32;
    let b2: u32 = bytes[at + 2] as u32;
    let b3: u32 = bytes[at + 3] as u32;
    b0 | b1 << 8 | b2 << 16 | b3 << 24
}

} // verus!
