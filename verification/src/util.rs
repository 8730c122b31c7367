use vstd::prelude::*;
use byte_slice_cast::AsSliceOf;
use crate::regs::{lemma_round_up, spec_walign, Word, WORD_SIZE};

verus! {

/// Why `byte_slice_cast` refused a cast. Nothing here looks inside.
#[verifier::external_type_specification]
#[verifier::external_body]
pub struct ExCastError(byte_slice_cast::Error);

/// The word that eight bytes stand for in memory, lowest byte first.
pub open spec fn word_of(bytes: Seq<u8>) -> Word {
    (bytes[0] + bytes[1] * 0x100 + bytes[2] * 0x1_0000 + bytes[3] * 0x100_0000 + bytes[4]
        * 0x1_0000_0000 + bytes[5] * 0x100_0000_0000 + bytes[6] * 0x1_0000_0000_0000 + bytes[7]
        * 0x100_0000_0000_0000) as Word
}

/// The words that a run of bytes stands for in memory; bytes behind the last whole word are
/// left out.
pub open spec fn words_of(bytes: Seq<u8>) -> Seq<Word> {
    Seq::new(bytes.len() / 8, |i: int| word_of(bytes.subrange(8 * i, 8 * i + 8)))
}

/// `bytes` followed by as many zero bytes as it takes to fill the last word.
pub open spec fn padded(bytes: Seq<u8>) -> Seq<u8> {
    bytes + Seq::new((spec_walign(bytes.len() as int) - bytes.len()) as nat, |i: int| 0u8)
}

/// Reads `bytes` as words in place, by `byte_slice_cast::AsSliceOf::as_slice_of`. The cast
/// is refused where the bytes are not a whole number of words, and where the buffer does not
/// start at an address that a word may start at, which no caller can tell in advance. Where
/// it is granted, the words are the bytes as they lie in memory, which on x86-64 is lowest
/// byte first. An empty buffer is always granted.
#[verifier::external_body]
fn cast_words(bytes: &Vec<u8>) -> (r: Result<Vec<Word>, byte_slice_cast::Error>)
    ensures
        r matches Ok(words) ==> bytes@.len() % 8 == 0 && words@ == words_of(bytes@),
        bytes@.len() == 0 ==> r is Ok,
{
    match bytes.as_slice_of::<Word>() {
        Ok(words) => Ok(words.to_vec()),
        Err(error) => Err(error),
    }
}

/// The words that `bytes` stands for, put together byte by byte. Bytes behind the last whole
/// word are left out.
pub fn assemble_words(bytes: &Vec<u8>) -> (r: Vec<Word>)
    ensures
        r@ == words_of(bytes@),
{
    let count = bytes.len() / WORD_SIZE;
    let mut words: Vec<Word> = Vec::new();
    let mut i: usize = 0;
    while i < count
        invariant
            i <= count,
            count == bytes@.len() / 8,
            8 * count <= bytes@.len() == bytes.len(),
            words@.len() == i,
            forall|j: int| 0 <= j < i ==> words@[j] == word_of(bytes@.subrange(8 * j, 8 * j + 8)),
        decreases count - i,
    {
        let at = 8 * i;
        let ghost chunk = bytes@.subrange(8 * i, 8 * i + 8);
        assert(forall|k: int| 0 <= k < 8 ==> chunk[k] == bytes@[8 * i + k]);
        let word: Word = (bytes[at] as u64) + (bytes[at + 1] as u64) * 0x100 + (bytes[at
            + 2] as u64) * 0x1_0000 + (bytes[at + 3] as u64) * 0x100_0000 + (bytes[at + 4] as u64)
            * 0x1_0000_0000 + (bytes[at + 5] as u64) * 0x100_0000_0000 + (bytes[at + 6] as u64)
            * 0x1_0000_0000_0000 + (bytes[at + 7] as u64) * 0x100_0000_0000_0000;
        assert(word == word_of(chunk));
        words.push(word);
        i = i + 1;
    }
    assert(words@ =~= words_of(bytes@));
    words
}

/// The words that the cast of `bytes` gave, or, where the cast was refused, the words put
/// together byte by byte.
fn words_or_assembled(bytes: &Vec<u8>, cast: Result<Vec<Word>, byte_slice_cast::Error>) -> (r:
    Vec<Word>)
    requires
        cast matches Ok(words) ==> words@ == words_of(bytes@),
    ensures
        r@ == words_of(bytes@),
{
    match cast {
        Ok(words) => words,
        Err(_) => assemble_words(bytes),
    }
}

/// Turns the bytes of a serialised value into the words that an `Alloc` instruction copies:
/// the bytes are padded with zeros to a whole number of words and read as words, lowest byte
/// first.
pub fn struct2words(bytes: Vec<u8>) -> (r: Vec<Word>)
    ensures
        r@ == words_of(padded(bytes@)),
        r@.len() * 8 == spec_walign(bytes@.len() as int),
{
    let mut bytes = bytes;
    let ghost given = bytes@;
    let rest = bytes.len() % WORD_SIZE;
    let pad: usize = if rest == 0 {
        0
    } else {
        WORD_SIZE - rest
    };
    proof {
        lemma_round_up(given.len() as int, 8);
    }
    let mut i: usize = 0;
    while i < pad
        invariant
            i <= pad,
            bytes@ == given + Seq::new(i as nat, |k: int| 0u8),
        decreases pad - i,
    {
        bytes.push(0);
        assert(bytes@ =~= given + Seq::new((i + 1) as nat, |k: int| 0u8));
        i = i + 1;
    }
    assert(bytes@ == padded(given));
    let cast = cast_words(&bytes);
    words_or_assembled(&bytes, cast)
}

/// Padding fills the last word and no more: the padded bytes are a whole number of words,
/// fewer than one word longer than the bytes given, they begin with the bytes given, and
/// every byte behind those is zero. Bytes that are a whole number of words already are not
/// padded.
pub proof fn lemma_padding_fills_last_word(bytes: Seq<u8>)
    ensures
        padded(bytes).len() == spec_walign(bytes.len() as int),
        padded(bytes).len() % 8 == 0,
        bytes.len() <= padded(bytes).len() < bytes.len() + 8,
        padded(bytes).subrange(0, bytes.len() as int) == bytes,
        forall|i: int| bytes.len() <= i < padded(bytes).len() ==> padded(bytes)[i] == 0,
        words_of(padded(bytes)).len() * 8 == padded(bytes).len(),
        bytes.len() % 8 == 0 ==> padded(bytes) == bytes,
{
    lemma_round_up(bytes.len() as int, 8);
    assert(padded(bytes).subrange(0, bytes.len() as int) =~= bytes);
    if bytes.len() % 8 == 0 {
        assert(padded(bytes) =~= bytes);
    }
}

/// A word holds its eight bytes, lowest byte first: each byte is read back from the word by
/// dividing by the weight of its place.
pub proof fn lemma_word_holds_its_bytes(bytes: Seq<u8>)
    requires
        bytes.len() == 8,
    ensures
        word_of(bytes) % 0x100 == bytes[0],
        (word_of(bytes) / 0x100) % 0x100 == bytes[1],
        (word_of(bytes) / 0x1_0000) % 0x100 == bytes[2],
        (word_of(bytes) / 0x100_0000) % 0x100 == bytes[3],
        (word_of(bytes) / 0x1_0000_0000) % 0x100 == bytes[4],
        (word_of(bytes) / 0x100_0000_0000) % 0x100 == bytes[5],
        (word_of(bytes) / 0x1_0000_0000_0000) % 0x100 == bytes[6],
        (word_of(bytes) / 0x100_0000_0000_0000) % 0x100 == bytes[7],
{
    let w = word_of(bytes) as int;
    let r7 = bytes[7] as int;
    let r6 = bytes[6] + 0x100 * r7;
    let r5 = bytes[5] + 0x100 * r6;
    let r4 = bytes[4] + 0x100 * r5;
    let r3 = bytes[3] + 0x100 * r4;
    let r2 = bytes[2] + 0x100 * r3;
    let r1 = bytes[1] + 0x100 * r2;
    assert(w == bytes[0] + 0x100 * r1);
    lemma_split(w, 0x100, r1, bytes[0] as int);
    lemma_split(r1, 0x100, r2, bytes[1] as int);
    lemma_split(r2, 0x100, r3, bytes[2] as int);
    lemma_split(r3, 0x100, r4, bytes[3] as int);
    lemma_split(r4, 0x100, r5, bytes[4] as int);
    lemma_split(r5, 0x100, r6, bytes[5] as int);
    lemma_split(r6, 0x100, r7, bytes[6] as int);
    lemma_split(r7, 0x100, 0, bytes[7] as int);
    lemma_split(w, 0x1_0000, r2, w - 0x1_0000 * r2);
    lemma_split(w, 0x100_0000, r3, w - 0x100_0000 * r3);
    lemma_split(w, 0x1_0000_0000, r4, w - 0x1_0000_0000 * r4);
    lemma_split(w, 0x100_0000_0000, r5, w - 0x100_0000_0000 * r5);
    lemma_split(w, 0x1_0000_0000_0000, r6, w - 0x1_0000_0000_0000 * r6);
    lemma_split(w, 0x100_0000_0000_0000, r7, w - 0x100_0000_0000_0000 * r7);
}

/// A number that is `low` plus `high` times `base`, with `low` below `base`, divides by
/// `base` into `high` and leaves `low`.
proof fn lemma_split(x: int, base: int, high: int, low: int)
    requires
        base > 0,
        0 <= low < base,
        x == base * high + low,
    ensures
        x / base == high,
        x % base == low,
{
    assert(base * high == high * base) by (nonlinear_arith);
    vstd::arithmetic::div_mod::lemma_fundamental_div_mod_converse(x, base, high, low);
}

/// The weight of byte `place` in a word: 256 to the power of `place`, for the eight places
/// of a word and the one above them.
pub open spec fn weight(place: int) -> int {
    if place <= 0 {
        1
    } else if place == 1 {
        0x100
    } else if place == 2 {
        0x1_0000
    } else if place == 3 {
        0x100_0000
    } else if place == 4 {
        0x1_0000_0000
    } else if place == 5 {
        0x100_0000_0000
    } else if place == 6 {
        0x1_0000_0000_0000
    } else if place == 7 {
        0x100_0000_0000_0000
    } else {
        0x1_0000_0000_0000_0000
    }
}

/// Byte `place` of `word` as it lies in memory, lowest byte first.
pub open spec fn byte_of(word: Word, place: int) -> u8 {
    ((word as int / weight(place)) % 0x100) as u8
}

/// The bytes of `word`, as they lie in memory, up to its first zero byte, and whether it has
/// a zero byte: the part of a zero-terminated text that a word of memory holds, and whether
/// the text ends in this word.
pub fn text_of_word(word: Word) -> (r: (Vec<u8>, bool))
    ensures
        r.0@.len() <= 8,
        forall|k: int| 0 <= k < r.0@.len() ==> r.0@[k] == byte_of(word, k) && r.0@[k] != 0,
        r.1 <==> r.0@.len() < 8,
        r.1 ==> byte_of(word, r.0@.len() as int) == 0,
{
    let mut text: Vec<u8> = Vec::new();
    let mut rest: Word = word;
    let mut place: usize = 0;
    while place < 8
        invariant
            place <= 8,
            text@.len() == place,
            rest == word as int / weight(place as int),
            forall|k: int| 0 <= k < place ==> text@[k] == byte_of(word, k) && text@[k] != 0,
        decreases 8 - place,
    {
        let byte = (rest % 0x100) as u8;
        assert(byte == byte_of(word, place as int));
        if byte == 0 {
            return (text, true);
        }
        proof {
            vstd::arithmetic::div_mod::lemma_div_denominator(
                word as int,
                weight(place as int),
                0x100,
            );
            assert(weight(place as int) * 0x100 == weight(place + 1));
        }
        text.push(byte);
        rest = rest / 0x100;
        place = place + 1;
    }
    (text, false)
}

/// The bytes that a word is put together from are the bytes that are read from it.
pub proof fn lemma_bytes_of_word(bytes: Seq<u8>)
    requires
        bytes.len() == 8,
    ensures
        forall|k: int| 0 <= k < 8 ==> byte_of(word_of(bytes), k) == bytes[k],
{
    lemma_word_holds_its_bytes(bytes);
}

} // verus!
