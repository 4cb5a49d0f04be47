//! Little-endian conversion between machine words and buffer bytes.
//!
//! Device buffers and readback data are flat byte strings; these are the
//! codecs that pin down which word each four-byte group stands for.

use vstd::prelude::*;

verus! {

/// The four little-endian bytes of a 32-bit word.
pub open spec fn u32_le_bytes(v: u32) -> Seq<u8> {
    seq![
        (v & 0xff) as u8,
        ((v >> 8) & 0xff) as u8,
        ((v >> 16) & 0xff) as u8,
        ((v >> 24) & 0xff) as u8,
    ]
}

/// The 32-bit word encoded by four little-endian bytes.
pub open spec fn le_bytes_u32(b0: u8, b1: u8, b2: u8, b3: u8) -> u32 {
    (b0 as u32) | ((b1 as u32) << 8) | ((b2 as u32) << 16) | ((b3 as u32) << 24)
}

/// The 32-bit word stored at word index `i` of a byte string.
pub open spec fn word_at(data: Seq<u8>, i: int) -> u32 {
    le_bytes_u32(data[4 * i], data[4 * i + 1], data[4 * i + 2], data[4 * i + 3])
}

/// Encoding a word and decoding the bytes gives the word back.
pub proof fn lemma_u32_le_round_trip(v: u32)
    ensures
        le_bytes_u32(
            (v & 0xff) as u8,
            ((v >> 8) & 0xff) as u8,
            ((v >> 16) & 0xff) as u8,
            ((v >> 24) & 0xff) as u8,
        ) == v,
{
    assert((((v & 0xff) as u8) as u32) | ((((v >> 8) & 0xff) as u8) as u32) << 8 | ((((v >> 16)
        & 0xff) as u8) as u32) << 16 | ((((v >> 24) & 0xff) as u8) as u32) << 24 == v)
        by (bit_vector);
}

/// The two's-complement 32-bit pattern of a signed word.
pub open spec fn i32_as_u32(v: i32) -> u32 {
    if v >= 0 {
        v as u32
    } else {
        (v + 0x1_0000_0000) as u32
    }
}

/// Append a 32-bit word to a byte buffer, little-endian.
pub fn push_u32_le(out: &mut Vec<u8>, v: u32)
    ensures
        final(out)@ == old(out)@ + u32_le_bytes(v),
{
    assert(v & 0xff < 256 && (v >> 8) & 0xff < 256 && (v >> 16) & 0xff < 256 && (v >> 24) & 0xff
        < 256) by (bit_vector);
    out.push((v & 0xff) as u8);
    out.push(((v >> 8) & 0xff) as u8);
    out.push(((v >> 16) & 0xff) as u8);
    out.push(((v >> 24) & 0xff) as u8);
    assert(out@ =~= old(out)@ + u32_le_bytes(v));
}

/// Append a signed 32-bit word to a byte buffer, as its little-endian
/// two's-complement pattern.
pub fn push_i32_le(out: &mut Vec<u8>, v: i32)
    ensures
        final(out)@ == old(out)@ + u32_le_bytes(i32_as_u32(v)),
{
    let w: u32 = if v >= 0 {
        v as u32
    } else {
        let big: i64 = v as i64 + 0x1_0000_0000i64;
        big as u32
    };
    assert(w == i32_as_u32(v));
    push_u32_le(out, w);
}

/// The little-endian byte string of a sequence of unsigned words.
pub open spec fn u32s_le_bytes(vs: Seq<u32>) -> Seq<u8>
    decreases vs.len(),
{
    if vs.len() == 0 {
        Seq::empty()
    } else {
        u32s_le_bytes(vs.drop_last()) + u32_le_bytes(vs.last())
    }
}

pub proof fn lemma_u32s_le_bytes_len(vs: Seq<u32>)
    ensures
        u32s_le_bytes(vs).len() == 4 * vs.len(),
    decreases vs.len(),
{
    if vs.len() > 0 {
        lemma_u32s_le_bytes_len(vs.drop_last());
    }
}

/// The little-endian byte string of a sequence of signed words.
pub open spec fn i32s_le_bytes(vs: Seq<i32>) -> Seq<u8>
    decreases vs.len(),
{
    if vs.len() == 0 {
        Seq::empty()
    } else {
        i32s_le_bytes(vs.drop_last()) + u32_le_bytes(i32_as_u32(vs.last()))
    }
}

pub proof fn lemma_i32s_le_bytes_len(vs: Seq<i32>)
    ensures
        i32s_le_bytes(vs).len() == 4 * vs.len(),
    decreases vs.len(),
{
    if vs.len() > 0 {
        lemma_i32s_le_bytes_len(vs.drop_last());
    }
}

/// Reading word `i` out of an encoded unsigned-word buffer gives the
/// `i`-th source word back.
pub proof fn lemma_u32s_word_at(vs: Seq<u32>, i: int)
    requires
        0 <= i < vs.len(),
    ensures
        word_at(u32s_le_bytes(vs), i) == vs[i],
    decreases vs.len(),
{
    lemma_u32s_le_bytes_len(vs.drop_last());
    if i < vs.len() - 1 {
        lemma_u32s_word_at(vs.drop_last(), i);
    } else {
        lemma_u32_le_round_trip(vs.last());
    }
}

/// Reading word `i` out of an encoded signed-word buffer gives the
/// `i`-th source word's two's-complement pattern back.
pub proof fn lemma_i32s_word_at(vs: Seq<i32>, i: int)
    requires
        0 <= i < vs.len(),
    ensures
        word_at(i32s_le_bytes(vs), i) == i32_as_u32(vs[i]),
    decreases vs.len(),
{
    lemma_i32s_le_bytes_len(vs.drop_last());
    if i < vs.len() - 1 {
        lemma_i32s_word_at(vs.drop_last(), i);
    } else {
        lemma_u32_le_round_trip(i32_as_u32(vs.last()));
    }
}

/// Encode a vector of unsigned words as buffer bytes.
pub fn encode_u32s(values: &Vec<u32>) -> (r: Vec<u8>)
    ensures
        r@ == u32s_le_bytes(values@),
        r@.len() == 4 * values@.len(),
{
    let mut out: Vec<u8> = Vec::new();
    let mut i: usize = 0;
    while i < values.len()
        invariant
            i <= values@.len(),
            out@ == u32s_le_bytes(values@.take(i as int)),
        decreases values@.len() - i,
    {
        push_u32_le(&mut out, values[i]);
        proof {
            assert(values@.take(i + 1).drop_last() =~= values@.take(i as int));
        }
        i = i + 1;
    }
    proof {
        assert(values@.take(values@.len() as int) =~= values@);
        lemma_u32s_le_bytes_len(values@);
    }
    out
}

/// Encode a vector of signed words as buffer bytes.
pub fn encode_i32s(values: &Vec<i32>) -> (r: Vec<u8>)
    ensures
        r@ == i32s_le_bytes(values@),
        r@.len() == 4 * values@.len(),
{
    let mut out: Vec<u8> = Vec::new();
    let mut i: usize = 0;
    while i < values.len()
        invariant
            i <= values@.len(),
            out@ == i32s_le_bytes(values@.take(i as int)),
        decreases values@.len() - i,
    {
        push_i32_le(&mut out, values[i]);
        proof {
            assert(values@.take(i + 1).drop_last() =~= values@.take(i as int));
        }
        i = i + 1;
    }
    proof {
        assert(values@.take(values@.len() as int) =~= values@);
        lemma_i32s_le_bytes_len(values@);
    }
    out
}

} // verus!
