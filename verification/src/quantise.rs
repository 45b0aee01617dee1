//! Conversion between the elements of a tensor and the bytes of a runtime buffer.
//!
//! A real value is quantised in two steps: it is divided by the tensor's scale and rounded to
//! a whole quotient, and the quotient is then moved by the zero point and saturated. The first
//! step is done on floats, outside of this library; the second one is done here. Going back, a
//! byte becomes its distance from the zero point here, and that distance is multiplied by the
//! scale outside.
use vstd::arithmetic::div_mod::lemma_fundamental_div_mod_converse;
use vstd::prelude::*;

use crate::error::{NnError, NnErrorView};
use crate::text::{decimal, decimal_text, join3};

verus! {

/// `bytes` written over the front of `buffer`.
pub open spec fn overwrite(buffer: Seq<u8>, bytes: Seq<u8>) -> Seq<u8> {
    bytes + buffer.skip(bytes.len() as int)
}

/// `v`, or the bound of `low..=high` that is nearest to it.
pub open spec fn saturate(v: int, low: int, high: int) -> int {
    if v < low {
        low
    } else if v > high {
        high
    } else {
        v
    }
}

/// Byte `j` of a 32-bit word, least significant byte first.
pub open spec fn word_byte(word: u32, j: int) -> u8 {
    (if j == 0 {
        word % 0x100
    } else if j == 1 {
        (word / 0x100) % 0x100
    } else if j == 2 {
        (word / 0x1_0000) % 0x100
    } else {
        word / 0x100_0000
    }) as u8
}

/// The word that four bytes stand for, least significant byte first.
pub open spec fn word_at(bytes: Seq<u8>, i: int) -> u32 {
    (bytes[i] + 0x100 * bytes[i + 1] + 0x1_0000 * bytes[i + 2] + 0x100_0000 * bytes[i + 3]) as u32
}

/// The bytes of a list of words.
pub open spec fn words_to_bytes(words: Seq<u32>) -> Seq<u8> {
    Seq::new(4 * words.len(), |i: int| word_byte(words[i / 4], i % 4))
}

/// The first `count` words of a buffer.
pub open spec fn bytes_to_words(bytes: Seq<u8>, count: nat) -> Seq<u32> {
    Seq::new(count, |i: int| word_at(bytes, 4 * i))
}

/// The two's complement byte of a value from -128 to 127.
pub open spec fn i8_byte(v: int) -> u8 {
    (if v < 0 {
        v + 256
    } else {
        v
    }) as u8
}

/// The value of a byte read as two's complement.
pub open spec fn i8_value(b: u8) -> int {
    if b < 128 {
        b as int
    } else {
        b - 256
    }
}

/// The signed byte that a quotient is stored as.
pub open spec fn quantised_i8(quotient: int, zero_point: int) -> u8 {
    i8_byte(saturate(quotient + zero_point, -128, 127))
}

/// The unsigned byte that a quotient is stored as.
pub open spec fn quantised_u8(quotient: int, zero_point: int) -> u8 {
    saturate(quotient + zero_point, 0, 255) as u8
}

/// Whether every quotient can be moved by the zero point within 32 bits.
pub open spec fn sums_fit(quotients: Seq<i32>, zero_point: i32) -> bool {
    forall|i: int|
        0 <= i < quotients.len() ==> i32::MIN <= #[trigger] quotients[i] + zero_point <= i32::MAX
}

/// The distance of a signed byte from the zero point.
pub open spec fn distance_i8(b: u8, zero_point: i32) -> int {
    i8_value(b) - zero_point
}

/// The distance of an unsigned byte from the zero point.
pub open spec fn distance_u8(b: u8, zero_point: i32) -> int {
    b - zero_point
}

/// Whether `v` is a 32-bit number.
pub open spec fn fits_i32(v: int) -> bool {
    i32::MIN <= v <= i32::MAX
}

/// The distances of the first `count` signed bytes of a buffer from the zero point.
pub open spec fn distances_i8(bytes: Seq<u8>, count: nat, zero_point: i32) -> Seq<i32> {
    Seq::new(count, |i: int| distance_i8(bytes[i], zero_point) as i32)
}

/// The distances of the first `count` unsigned bytes of a buffer from the zero point.
pub open spec fn distances_u8(bytes: Seq<u8>, count: nat, zero_point: i32) -> Seq<i32> {
    Seq::new(count, |i: int| distance_u8(bytes[i], zero_point) as i32)
}

/// Whether the first `count` signed bytes exist and keep a 32-bit distance from the zero point.
pub open spec fn readable_i8(bytes: Seq<u8>, count: nat, zero_point: i32) -> bool {
    &&& count <= bytes.len()
    &&& forall|i: int| 0 <= i < count ==> fits_i32(#[trigger] distance_i8(bytes[i], zero_point))
}

/// Whether the first `count` unsigned bytes exist and keep a 32-bit distance from the zero
/// point.
pub open spec fn readable_u8(bytes: Seq<u8>, count: nat, zero_point: i32) -> bool {
    &&& count <= bytes.len()
    &&& forall|i: int| 0 <= i < count ==> fits_i32(#[trigger] distance_u8(bytes[i], zero_point))
}

/// The error for a buffer that holds fewer than `need` bytes.
pub open spec fn short_buffer_error(
    name: Seq<char>,
    format: Seq<char>,
    got: nat,
    need: nat,
) -> NnErrorView {
    NnErrorView::Inference(
        "input '"@ + name + format + decimal(got) + " < "@ + decimal(need) + ")"@,
    )
}

fn short_buffer(name: &str, format: &str, got: usize, need: usize) -> (error: NnError)
    ensures
        error@ == short_buffer_error(name@, format@, got as nat, need as nat),
{
    let mut text = join3("input '", name, format);
    text.append(decimal_text(got as u128).as_str());
    text.append(" < ");
    text.append(decimal_text(need as u128).as_str());
    text.append(")");
    NnError::Inference(text)
}

/// Whether every quotient can be moved by the zero point within 32 bits.
pub fn quotients_fit(quotients: &[i32], zero_point: i32) -> (fit: bool)
    ensures
        fit == sums_fit(quotients@, zero_point),
{
    for i in 0..quotients.len()
        invariant
            forall|j: int|
                0 <= j < i ==> i32::MIN <= #[trigger] quotients@[j] + zero_point <= i32::MAX,
    {
        let sum: i64 = quotients[i] as i64 + zero_point as i64;
        if sum < i32::MIN as i64 || sum > i32::MAX as i64 {
            assert(!(i32::MIN <= quotients@[i as int] + zero_point <= i32::MAX));
            return false;
        }
    }
    true
}

/// Writes words over the front of a buffer, least significant byte first.
pub fn write_words(words: &[u32], dst: &mut Vec<u8>)
    requires
        4 * words@.len() <= old(dst)@.len(),
    ensures
        final(dst)@ == overwrite(old(dst)@, words_to_bytes(words@)),
{
    let ghost before = dst@;
    assert(dst.len() == before.len());
    for i in 0..words.len()
        invariant
            4 * words@.len() <= before.len() <= usize::MAX,
            dst@.len() == before.len(),
            forall|k: int| 0 <= k < 4 * i ==> #[trigger] dst@[k] == word_byte(words@[k / 4], k % 4),
            forall|k: int| 4 * i <= k < before.len() ==> #[trigger] dst@[k] == before[k],
    {
        let word: u32 = words[i];
        dst[4 * i] = (word % 0x100) as u8;
        dst[4 * i + 1] = ((word / 0x100) % 0x100) as u8;
        dst[4 * i + 2] = ((word / 0x1_0000) % 0x100) as u8;
        dst[4 * i + 3] = (word / 0x100_0000) as u8;
    }
    assert(dst@ =~= overwrite(before, words_to_bytes(words@)));
}

/// Reads the first `count` words of a buffer, least significant byte first.
pub fn read_words(src: &Vec<u8>, count: usize) -> (words: Vec<u32>)
    requires
        4 * count <= src@.len(),
    ensures
        words@ == bytes_to_words(src@, count as nat),
{
    assert(src.len() == src@.len());
    let mut words: Vec<u32> = Vec::with_capacity(count);
    for i in 0..count
        invariant
            4 * count <= src@.len() <= usize::MAX,
            words@ == bytes_to_words(src@, i as nat),
    {
        let word: u32 = src[4 * i] as u32 + 0x100 * src[4 * i + 1] as u32 + 0x1_0000 * src[4 * i
            + 2] as u32 + 0x100_0000 * src[4 * i + 3] as u32;
        words.push(word);
    }
    words
}

/// Stores quotients as signed bytes over the front of `dst`, moved by the zero point and
/// saturated.
pub fn quantise_into_i8(
    quotients: &[i32],
    dst: &mut Vec<u8>,
    zero_point: i32,
    name: &str,
) -> (done: Result<(), NnError>)
    requires
        quotients@.len() <= old(dst)@.len() ==> sums_fit(quotients@, zero_point),
    ensures
        old(dst)@.len() < quotients@.len() ==> {
            &&& done matches Err(e)
            &&& e@ == short_buffer_error(
                name@,
                "' int8 buffer too small ("@,
                old(dst)@.len(),
                quotients@.len(),
            )
            &&& final(dst)@ == old(dst)@
        },
        old(dst)@.len() >= quotients@.len() ==> {
            &&& done is Ok
            &&& final(dst)@ == overwrite(
                old(dst)@,
                quotients@.map_values(|q: i32| quantised_i8(q as int, zero_point as int)),
            )
        },
{
    if dst.len() < quotients.len() {
        return Err(
            short_buffer(name, "' int8 buffer too small (", dst.len(), quotients.len()),
        );
    }
    let ghost before = dst@;
    for i in 0..quotients.len()
        invariant
            quotients@.len() <= before.len(),
            sums_fit(quotients@, zero_point),
            dst@.len() == before.len(),
            forall|k: int|
                0 <= k < i ==> #[trigger] dst@[k] == quantised_i8(
                    quotients@[k] as int,
                    zero_point as int,
                ),
            forall|k: int| i <= k < before.len() ==> #[trigger] dst@[k] == before[k],
    {
        assert(i32::MIN <= quotients@[i as int] + zero_point <= i32::MAX);
        let q: i32 = quotients[i] + zero_point;
        let clamped: i32 = if q < -128 {
            -128
        } else if q > 127 {
            127
        } else {
            q
        };
        dst[i] = if clamped < 0 {
            (clamped + 256) as u8
        } else {
            clamped as u8
        };
    }
    assert(dst@ =~= overwrite(
        before,
        quotients@.map_values(|q: i32| quantised_i8(q as int, zero_point as int)),
    ));
    Ok(())
}

/// Stores quotients as unsigned bytes over the front of `dst`, moved by the zero point and
/// saturated.
pub fn quantise_into_u8(
    quotients: &[i32],
    dst: &mut Vec<u8>,
    zero_point: i32,
    name: &str,
) -> (done: Result<(), NnError>)
    requires
        quotients@.len() <= old(dst)@.len() ==> sums_fit(quotients@, zero_point),
    ensures
        old(dst)@.len() < quotients@.len() ==> {
            &&& done matches Err(e)
            &&& e@ == short_buffer_error(
                name@,
                "' uint8 buffer too small ("@,
                old(dst)@.len(),
                quotients@.len(),
            )
            &&& final(dst)@ == old(dst)@
        },
        old(dst)@.len() >= quotients@.len() ==> {
            &&& done is Ok
            &&& final(dst)@ == overwrite(
                old(dst)@,
                quotients@.map_values(|q: i32| quantised_u8(q as int, zero_point as int)),
            )
        },
{
    if dst.len() < quotients.len() {
        return Err(
            short_buffer(name, "' uint8 buffer too small (", dst.len(), quotients.len()),
        );
    }
    let ghost before = dst@;
    for i in 0..quotients.len()
        invariant
            quotients@.len() <= before.len(),
            sums_fit(quotients@, zero_point),
            dst@.len() == before.len(),
            forall|k: int|
                0 <= k < i ==> #[trigger] dst@[k] == quantised_u8(
                    quotients@[k] as int,
                    zero_point as int,
                ),
            forall|k: int| i <= k < before.len() ==> #[trigger] dst@[k] == before[k],
    {
        assert(i32::MIN <= quotients@[i as int] + zero_point <= i32::MAX);
        let q: i32 = quotients[i] + zero_point;
        dst[i] = if q < 0 {
            0
        } else if q > 255 {
            255
        } else {
            q as u8
        };
    }
    assert(dst@ =~= overwrite(
        before,
        quotients@.map_values(|q: i32| quantised_u8(q as int, zero_point as int)),
    ));
    Ok(())
}

fn signed(b: u8) -> (v: i64)
    ensures
        v == i8_value(b),
{
    if b < 128 {
        b as i64
    } else {
        b as i64 - 256
    }
}

/// Whether the first `count` signed bytes exist and keep a 32-bit distance from the zero point.
pub fn can_read_i8(src: &Vec<u8>, count: usize, zero_point: i32) -> (can: bool)
    ensures
        can == readable_i8(src@, count as nat, zero_point),
{
    if src.len() < count {
        return false;
    }
    for i in 0..count
        invariant
            count <= src@.len(),
            forall|j: int| 0 <= j < i ==> fits_i32(#[trigger] distance_i8(src@[j], zero_point)),
    {
        let d: i64 = signed(src[i]) - zero_point as i64;
        if d < i32::MIN as i64 || d > i32::MAX as i64 {
            assert(!fits_i32(distance_i8(src@[i as int], zero_point)));
            return false;
        }
    }
    true
}

/// Whether the first `count` unsigned bytes exist and keep a 32-bit distance from the zero
/// point.
pub fn can_read_u8(src: &Vec<u8>, count: usize, zero_point: i32) -> (can: bool)
    ensures
        can == readable_u8(src@, count as nat, zero_point),
{
    if src.len() < count {
        return false;
    }
    for i in 0..count
        invariant
            count <= src@.len(),
            forall|j: int| 0 <= j < i ==> fits_i32(#[trigger] distance_u8(src@[j], zero_point)),
    {
        let d: i64 = src[i] as i64 - zero_point as i64;
        if d < i32::MIN as i64 || d > i32::MAX as i64 {
            assert(!fits_i32(distance_u8(src@[i as int], zero_point)));
            return false;
        }
    }
    true
}

/// Takes the first `count` signed bytes of a buffer as distances from the zero point.
pub fn dequantise_i8(src: &Vec<u8>, count: usize, zero_point: i32) -> (distances: Vec<i32>)
    requires
        readable_i8(src@, count as nat, zero_point),
    ensures
        distances@ == distances_i8(src@, count as nat, zero_point),
{
    let mut distances: Vec<i32> = Vec::with_capacity(count);
    for i in 0..count
        invariant
            readable_i8(src@, count as nat, zero_point),
            distances@ == distances_i8(src@, i as nat, zero_point),
    {
        assert(fits_i32(distance_i8(src@[i as int], zero_point)));
        distances.push((signed(src[i]) - zero_point as i64) as i32);
    }
    distances
}

/// Takes the first `count` unsigned bytes of a buffer as distances from the zero point.
pub fn dequantise_u8(src: &Vec<u8>, count: usize, zero_point: i32) -> (distances: Vec<i32>)
    requires
        readable_u8(src@, count as nat, zero_point),
    ensures
        distances@ == distances_u8(src@, count as nat, zero_point),
{
    let mut distances: Vec<i32> = Vec::with_capacity(count);
    for i in 0..count
        invariant
            readable_u8(src@, count as nat, zero_point),
            distances@ == distances_u8(src@, i as nat, zero_point),
    {
        assert(fits_i32(distance_u8(src@[i as int], zero_point)));
        distances.push(src[i] as i32 - zero_point);
    }
    distances
}

/// Words written to a buffer are read back as they were.
pub proof fn law_words_survive_the_buffer(buffer: Seq<u8>, words: Seq<u32>)
    requires
        4 * words.len() <= buffer.len(),
    ensures
        bytes_to_words(overwrite(buffer, words_to_bytes(words)), words.len()) == words,
{
    let bytes = words_to_bytes(words);
    let after = overwrite(buffer, bytes);
    assert forall|i: int| 0 <= i < words.len() implies word_at(after, 4 * i) == #[trigger] words[i] by {
        let w = words[i];
        assert(after[4 * i] == word_byte(w, 0));
        assert(after[4 * i + 1] == word_byte(w, 1));
        assert(after[4 * i + 2] == word_byte(w, 2));
        assert(after[4 * i + 3] == word_byte(w, 3));
    }
    assert(bytes_to_words(after, words.len()) =~= words);
}

proof fn lemma_word_splits(w: int, b0: int, b1: int, b2: int, b3: int)
    requires
        0 <= b0 < 0x100,
        0 <= b1 < 0x100,
        0 <= b2 < 0x100,
        0 <= b3 < 0x100,
        w == b0 + 0x100 * b1 + 0x1_0000 * b2 + 0x100_0000 * b3,
    ensures
        w % 0x100 == b0,
        (w / 0x100) % 0x100 == b1,
        (w / 0x1_0000) % 0x100 == b2,
        w / 0x100_0000 == b3,
{
    let high2 = b2 + 0x100 * b3;
    let high1 = b1 + 0x100 * high2;
    lemma_fundamental_div_mod_converse(w, 0x100, high1, b0);
    lemma_fundamental_div_mod_converse(high1, 0x100, high2, b1);
    lemma_fundamental_div_mod_converse(w, 0x1_0000, high2, b0 + 0x100 * b1);
    lemma_fundamental_div_mod_converse(high2, 0x100, b3, b2);
    lemma_fundamental_div_mod_converse(w, 0x100_0000, b3, b0 + 0x100 * b1 + 0x1_0000 * b2);
}

proof fn lemma_word_has_its_bytes(bytes: Seq<u8>, i: int)
    ensures
        word_byte(word_at(bytes, i), 0) == bytes[i],
        word_byte(word_at(bytes, i), 1) == bytes[i + 1],
        word_byte(word_at(bytes, i), 2) == bytes[i + 2],
        word_byte(word_at(bytes, i), 3) == bytes[i + 3],
{
    lemma_word_splits(
        word_at(bytes, i) as int,
        bytes[i] as int,
        bytes[i + 1] as int,
        bytes[i + 2] as int,
        bytes[i + 3] as int,
    );
}

/// Words read from a buffer and written back leave it as it was.
pub proof fn law_bytes_survive_as_words(buffer: Seq<u8>, count: nat)
    requires
        4 * count <= buffer.len(),
    ensures
        overwrite(buffer, words_to_bytes(bytes_to_words(buffer, count))) == buffer,
{
    let words = bytes_to_words(buffer, count);
    let bytes = words_to_bytes(words);
    assert forall|i: int| 0 <= i < bytes.len() implies bytes[i] == #[trigger] buffer[i] by {
        let (k, j) = (i / 4, i % 4);
        assert(i == 4 * k + j && 0 <= j < 4);
        assert(bytes[i] == word_byte(words[k], j));
        assert(words[k] == word_at(buffer, 4 * k));
        lemma_word_has_its_bytes(buffer, 4 * k);
    }
    assert(overwrite(buffer, bytes) =~= buffer);
}

/// Quantising reaches no further than the front of the buffer that the elements take.
pub proof fn law_rest_of_buffer_is_kept(buffer: Seq<u8>, bytes: Seq<u8>, i: int)
    requires
        bytes.len() <= i < buffer.len(),
    ensures
        overwrite(buffer, bytes).len() == buffer.len(),
        overwrite(buffer, bytes)[i] == buffer[i],
{
}

/// A quotient that was stored as a signed byte comes back saturated to what a signed byte can
/// hold around the zero point; one within that range comes back as it was.
pub proof fn law_i8_round_trip(quotient: int, zero_point: i32)
    ensures
        distance_i8(quantised_i8(quotient, zero_point as int), zero_point) == saturate(
            quotient,
            -128 - zero_point,
            127 - zero_point,
        ),
        -128 <= quotient + zero_point <= 127 ==> distance_i8(
            quantised_i8(quotient, zero_point as int),
            zero_point,
        ) == quotient,
{
}

/// A quotient that was stored as an unsigned byte comes back saturated to what an unsigned
/// byte can hold around the zero point; one within that range comes back as it was.
pub proof fn law_u8_round_trip(quotient: int, zero_point: i32)
    ensures
        distance_u8(quantised_u8(quotient, zero_point as int), zero_point) == saturate(
            quotient,
            -zero_point as int,
            255 - zero_point,
        ),
        0 <= quotient + zero_point <= 255 ==> distance_u8(
            quantised_u8(quotient, zero_point as int),
            zero_point,
        ) == quotient,
{
}

/// Quantising the distance of a byte from the zero point gives the byte back.
pub proof fn law_bytes_survive_requantising(b: u8, zero_point: i32)
    ensures
        quantised_i8(distance_i8(b, zero_point), zero_point as int) == b,
        quantised_u8(distance_u8(b, zero_point), zero_point as int) == b,
{
}

/// A larger quotient is never stored as a smaller byte.
pub proof fn law_quantising_keeps_order(a: int, b: int, zero_point: int)
    requires
        a <= b,
    ensures
        i8_value(quantised_i8(a, zero_point)) <= i8_value(quantised_i8(b, zero_point)),
        quantised_u8(a, zero_point) <= quantised_u8(b, zero_point),
{
}

/// Bytes that are written over the front of a buffer with room for them stand there in their
/// order.
pub proof fn law_written_bytes_stand_in_front(buffer: Seq<u8>, bytes: Seq<u8>, i: int)
    requires
        0 <= i < bytes.len() <= buffer.len(),
    ensures
        overwrite(buffer, bytes).len() == buffer.len(),
        overwrite(buffer, bytes)[i] == bytes[i],
{
}

/// Whatever its place in the list, a word takes four bytes of the buffer, and these add up to it
/// with the least significant byte first.
pub proof fn law_words_are_written_least_byte_first(buffer: Seq<u8>, words: Seq<u32>, i: int)
    requires
        4 * words.len() <= buffer.len(),
        0 <= i < words.len(),
    ensures
        words_to_bytes(words).len() == 4 * words.len(),
        ({
            let after = overwrite(buffer, words_to_bytes(words));
            &&& after.len() == buffer.len()
            &&& after[4 * i] + 0x100 * after[4 * i + 1] + 0x1_0000 * after[4 * i + 2] + 0x100_0000
                * after[4 * i + 3] == words[i]
        }),
{
    let after = overwrite(buffer, words_to_bytes(words));
    let w = words[i];
    assert(after[4 * i] == word_byte(w, 0));
    assert(after[4 * i + 1] == word_byte(w, 1));
    assert(after[4 * i + 2] == word_byte(w, 2));
    assert(after[4 * i + 3] == word_byte(w, 3));
    assert(word_byte(w, 0) == w % 0x100);
    assert(word_byte(w, 1) == (w / 0x100) % 0x100);
    assert(word_byte(w, 2) == (w / 0x1_0000) % 0x100);
    assert(word_byte(w, 3) == w / 0x100_0000);
}

/// Whatever its place in the buffer, a word that is read is what its four bytes add up to with
/// the least significant byte first.
pub proof fn law_words_are_read_least_byte_first(buffer: Seq<u8>, count: nat, i: int)
    requires
        4 * count <= buffer.len(),
        0 <= i < count,
    ensures
        bytes_to_words(buffer, count).len() == count,
        bytes_to_words(buffer, count)[i] == buffer[4 * i] + 0x100 * buffer[4 * i + 1] + 0x1_0000
            * buffer[4 * i + 2] + 0x100_0000 * buffer[4 * i + 3],
{
}

/// A number saturates to itself within the bounds, and outside of them to the one that it
/// passed.
pub proof fn law_saturation_stops_at_the_bounds(v: int, low: int, high: int)
    requires
        low <= high,
    ensures
        low <= saturate(v, low, high) <= high,
        low <= v <= high ==> saturate(v, low, high) == v,
        v <= low ==> saturate(v, low, high) == low,
        v >= high ==> saturate(v, low, high) == high,
{
}

/// A byte read with a sign lies from -128 to 127 and differs from the byte by a multiple of 256;
/// every such value has a byte that is read as it.
pub proof fn law_signed_bytes_are_twos_complement(b: u8, v: int)
    ensures
        -128 <= i8_value(b) <= 127,
        (b - i8_value(b)) % 256 == 0,
        -128 <= v <= 127 ==> (i8_byte(v) - v) % 256 == 0,
{
}

/// A stored signed byte is the quotient plus the zero point, as two's complement; sums beyond
/// what a signed byte can hold are stored as the last value on their side.
pub proof fn law_signed_bytes_hold_the_moved_quotient(quotient: int, zero_point: int)
    ensures
        0 <= quotient + zero_point <= 127 ==> quantised_i8(quotient, zero_point) == quotient
            + zero_point,
        -128 <= quotient + zero_point < 0 ==> quantised_i8(quotient, zero_point) == quotient
            + zero_point + 256,
        quotient + zero_point >= 127 ==> quantised_i8(quotient, zero_point) == 0x7f,
        quotient + zero_point <= -128 ==> quantised_i8(quotient, zero_point) == 0x80,
{
}

/// A stored unsigned byte is the quotient plus the zero point; sums beyond what an unsigned byte
/// can hold are stored as the last value on their side.
pub proof fn law_unsigned_bytes_hold_the_moved_quotient(quotient: int, zero_point: int)
    ensures
        0 <= quotient + zero_point <= 255 ==> quantised_u8(quotient, zero_point) == quotient
            + zero_point,
        quotient + zero_point >= 255 ==> quantised_u8(quotient, zero_point) == 0xff,
        quotient + zero_point <= 0 ==> quantised_u8(quotient, zero_point) == 0,
{
}

/// Moving the quotient up and the zero point down by the same amount changes no stored byte.
pub proof fn law_only_the_sum_is_stored(quotient: int, zero_point: int, by: int)
    ensures
        quantised_i8(quotient + by, zero_point - by) == quantised_i8(quotient, zero_point),
        quantised_u8(quotient + by, zero_point - by) == quantised_u8(quotient, zero_point),
{
}

/// A distance and the zero point add up to the byte: read without a sign for unsigned bytes, and
/// as two's complement for signed ones.
pub proof fn law_distances_lead_back_to_the_bytes(
    bytes: Seq<u8>,
    count: nat,
    zero_point: i32,
    i: int,
)
    requires
        0 <= i < count,
    ensures
        readable_u8(bytes, count, zero_point) ==> {
            &&& distances_u8(bytes, count, zero_point).len() == count
            &&& distances_u8(bytes, count, zero_point)[i] + zero_point == bytes[i]
        },
        readable_i8(bytes, count, zero_point) ==> {
            &&& distances_i8(bytes, count, zero_point).len() == count
            &&& bytes[i] < 0x80 ==> distances_i8(bytes, count, zero_point)[i] + zero_point
                == bytes[i]
            &&& bytes[i] >= 0x80 ==> distances_i8(bytes, count, zero_point)[i] + zero_point
                == bytes[i] - 256
        },
        distance_u8(bytes[i], zero_point) + zero_point == bytes[i],
        distance_i8(bytes[i], zero_point) + zero_point == if bytes[i] < 0x80 {
            bytes[i] as int
        } else {
            bytes[i] - 256
        },
{
    if readable_u8(bytes, count, zero_point) {
        assert(fits_i32(distance_u8(bytes[i], zero_point)));
    }
    if readable_i8(bytes, count, zero_point) {
        assert(fits_i32(distance_i8(bytes[i], zero_point)));
    }
}

/// Bytes can be read unless there are too few of them or the distance of one from the zero point
/// leaves 32 bits.
pub proof fn law_unreadable_bytes_are_few_or_far(bytes: Seq<u8>, count: nat, zero_point: i32)
    ensures
        !readable_u8(bytes, count, zero_point) <==> bytes.len() < count || exists|i: int|
            0 <= i < count && !(-0x8000_0000 <= #[trigger] bytes[i] - zero_point <= 0x7fff_ffff),
        !readable_i8(bytes, count, zero_point) <==> bytes.len() < count || exists|i: int|
            0 <= i < count && !(-0x8000_0000 <= (if (#[trigger] bytes[i]) < 0x80 {
                bytes[i] as int
            } else {
                bytes[i] - 256
            }) - zero_point <= 0x7fff_ffff),
{
    if bytes.len() >= count {
        assert forall|i: int| 0 <= i < count implies (fits_i32(
            #[trigger] distance_u8(bytes[i], zero_point),
        ) <==> -0x8000_0000 <= bytes[i] - zero_point <= 0x7fff_ffff) by {}
        assert forall|i: int| 0 <= i < count implies (fits_i32(
            #[trigger] distance_i8(bytes[i], zero_point),
        ) <==> -0x8000_0000 <= (if bytes[i] < 0x80 {
            bytes[i] as int
        } else {
            bytes[i] - 256
        }) - zero_point <= 0x7fff_ffff) by {}
        if exists|i: int|
            0 <= i < count && !(-0x8000_0000 <= #[trigger] bytes[i] - zero_point <= 0x7fff_ffff) {
            let i = choose|i: int|
                0 <= i < count && !(-0x8000_0000 <= #[trigger] bytes[i] - zero_point
                    <= 0x7fff_ffff);
            assert(!fits_i32(distance_u8(bytes[i], zero_point)));
        }
        if exists|i: int|
            0 <= i < count && !(-0x8000_0000 <= (if (#[trigger] bytes[i]) < 0x80 {
                bytes[i] as int
            } else {
                bytes[i] - 256
            }) - zero_point <= 0x7fff_ffff) {
            let i = choose|i: int|
                0 <= i < count && !(-0x8000_0000 <= (if (#[trigger] bytes[i]) < 0x80 {
                    bytes[i] as int
                } else {
                    bytes[i] - 256
                }) - zero_point <= 0x7fff_ffff);
            assert(!fits_i32(distance_i8(bytes[i], zero_point)));
        }
    }
}

/// Quotients can be moved by the zero point unless the sum of one and the zero point leaves 32
/// bits.
pub proof fn law_unfit_quotients_leave_32_bits(quotients: Seq<i32>, zero_point: i32)
    ensures
        !sums_fit(quotients, zero_point) <==> exists|i: int|
            0 <= i < quotients.len() && !(-0x8000_0000 <= #[trigger] quotients[i] + zero_point
                <= 0x7fff_ffff),
{
    if exists|i: int|
        0 <= i < quotients.len() && !(-0x8000_0000 <= #[trigger] quotients[i] + zero_point
            <= 0x7fff_ffff) {
        let i = choose|i: int|
            0 <= i < quotients.len() && !(-0x8000_0000 <= #[trigger] quotients[i] + zero_point
                <= 0x7fff_ffff);
        assert(!(i32::MIN <= quotients[i] + zero_point <= i32::MAX));
    }
}

/// The message for a buffer that is too short names the input, the element type, and what the
/// buffer has before what it needs.
pub proof fn law_short_buffers_are_named(
    name: Seq<char>,
    format: Seq<char>,
    got: nat,
    need: nat,
)
    ensures
        short_buffer_error(name, format, got, need) == NnErrorView::Inference(
            "input '"@ + name + format + decimal(got) + " < "@ + decimal(need) + ")"@,
        ),
{
}

} // verus!
