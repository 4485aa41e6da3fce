//! The bit codec: logical bytes to pulse symbols and back.
//!
//! The host sends one symbol per logical bit, least significant bit first. The
//! device answers by pulling the line low, and the host reads one sample per
//! bit.

use crate::buffer;
use crate::buffer::held;
use bytes::BytesMut;
use vstd::prelude::*;

verus! {

/// The symbol sent for a bit that is 0.
pub const SYMBOL_ZERO: u8 = 0xFD;

/// The symbol sent for a bit that is 1.
pub const SYMBOL_ONE: u8 = 0xFF;

/// The number of symbols that carry one byte.
pub const SYMBOLS_PER_BYTE: usize = 8;

/// Bit `index` of `byte`, counted from the least significant.
pub open spec fn bit_of(byte: u8, index: int) -> bool {
    (byte >> (index as u8)) & 1u8 == 1u8
}

/// The symbol that stands for bit `index` of `byte`.
pub open spec fn symbol_of(byte: u8, index: int) -> u8 {
    if bit_of(byte, index) {
        SYMBOL_ONE
    } else {
        SYMBOL_ZERO
    }
}

/// The symbols that stand for `logical`: eight for each byte, the least
/// significant bit first.
pub open spec fn encoded(logical: Seq<u8>) -> Seq<u8> {
    Seq::new(8 * logical.len(), |i: int| symbol_of(logical[i / 8], i % 8))
}

/// Whether a sample shows the line pulled low, which reads as a bit that is 1.
pub open spec fn is_mark(sample: u8) -> bool {
    sample == 0x7F || sample == 0x7E
}

/// What the sample at place `index` of its run adds to the byte.
pub open spec fn weight(sample: u8, index: int) -> u8 {
    if is_mark(sample) {
        1u8 << (index as u8)
    } else {
        0u8
    }
}

/// The byte that the eight samples from `start` on stand for: bit `k` is set
/// exactly where sample `k` is a mark.
pub open spec fn decoded_byte(physical: Seq<u8>, start: int) -> u8 {
    weight(physical[start], 0) | weight(physical[start + 1], 1) | weight(physical[start + 2], 2)
        | weight(physical[start + 3], 3) | weight(physical[start + 4], 4) | weight(
        physical[start + 5],
        5,
    ) | weight(physical[start + 6], 6) | weight(physical[start + 7], 7)
}

/// The bytes that `physical` stands for, one for each full run of eight
/// samples.
pub open spec fn decoded(physical: Seq<u8>) -> Seq<u8> {
    Seq::new(physical.len() / 8, |i: int| decoded_byte(physical, 8 * i))
}

/// Whether `physical` can be decoded: its samples come in runs of eight.
pub open spec fn decodable(physical: Seq<u8>) -> bool {
    physical.len() % 8 == 0
}

/// What decoding makes of `physical`: its bytes where it can be decoded, and
/// nothing where it cannot.
pub open spec fn decoding(physical: Seq<u8>) -> Option<Seq<u8>> {
    if decodable(physical) {
        Some(decoded(physical))
    } else {
        None
    }
}

/// Turns logical bytes into the symbols to send.
pub fn encode_uart_to_swi(uart_msg: &BytesMut) -> (swi_msg: BytesMut)
    requires
        8 * held(*uart_msg).len() <= isize::MAX,
    ensures
        held(swi_msg) == encoded(held(*uart_msg)),
        held(swi_msg).len() == 8 * held(*uart_msg).len(),
{
    let count: usize = buffer::len(uart_msg);
    let mut swi_msg = buffer::with_capacity(count * SYMBOLS_PER_BYTE);
    let mut i: usize = 0;
    while i < count
        invariant
            i <= count,
            count == held(*uart_msg).len(),
            8 * count <= isize::MAX,
            held(swi_msg) == encoded(held(*uart_msg)).take(8 * i),
        decreases count - i,
    {
        let byte: u8 = buffer::byte_at(uart_msg, i);
        let mut bit_index: u8 = 0;
        while bit_index < 8
            invariant
                i < count,
                bit_index <= 8,
                count == held(*uart_msg).len(),
                8 * count <= isize::MAX,
                byte == held(*uart_msg)[i as int],
                held(swi_msg) == encoded(held(*uart_msg)).take(8 * i + bit_index),
            decreases 8 - bit_index,
        {
            let symbol: u8 = if (byte >> bit_index) & 1 == 1 {
                SYMBOL_ONE
            } else {
                SYMBOL_ZERO
            };
            proof {
                let at: int = 8 * i + bit_index;
                assert(at / 8 == i as int && at % 8 == bit_index as int);
                assert(encoded(held(*uart_msg))[at] == symbol);
                assert(encoded(held(*uart_msg)).take(at + 1) == encoded(held(*uart_msg)).take(
                    at,
                ).push(symbol));
            }
            buffer::put_u8(&mut swi_msg, symbol);
            bit_index = bit_index + 1;
        }
        i = i + 1;
    }
    proof {
        assert(encoded(held(*uart_msg)).take(8 * count) == encoded(held(*uart_msg)));
    }
    swi_msg
}

/// The accumulator after one more sample: a mark toggles its lowest bit, then
/// every bit moves one place down and the lowest comes in at the top.
pub open spec fn shifted_in(accumulator: u8, sample: u8) -> u8 {
    let toggled: u8 = if is_mark(sample) {
        accumulator ^ 1u8
    } else {
        accumulator
    };
    (toggled >> 1u8) | ((toggled & 1u8) << 7u8)
}

/// The accumulator after the first `count` samples of the run that begins at
/// `start`.
pub open spec fn accumulated(physical: Seq<u8>, start: int, count: nat) -> u8
    decreases count,
{
    if count == 0 {
        0u8
    } else {
        shifted_in(accumulated(physical, start, (count - 1) as nat), physical[start + count - 1])
    }
}

/// Eight samples shifted in one after the other leave the byte whose bit `k`
/// is set exactly where sample `k` is a mark.
pub proof fn lemma_accumulated_run(physical: Seq<u8>, start: int)
    ensures
        accumulated(physical, start, 8) == decoded_byte(physical, start),
{
    let s0 = physical[start];
    let s1 = physical[start + 1];
    let s2 = physical[start + 2];
    let s3 = physical[start + 3];
    let s4 = physical[start + 4];
    let s5 = physical[start + 5];
    let s6 = physical[start + 6];
    let s7 = physical[start + 7];
    reveal_with_fuel(accumulated, 9);
    assert(accumulated(physical, start, 8) == shifted_in(
        shifted_in(
            shifted_in(
                shifted_in(shifted_in(shifted_in(shifted_in(shifted_in(0u8, s0), s1), s2), s3), s4),
                s5,
            ),
            s6,
        ),
        s7,
    ));
    assert(shifted_in(
        shifted_in(
            shifted_in(
                shifted_in(shifted_in(shifted_in(shifted_in(shifted_in(0u8, s0), s1), s2), s3), s4),
                s5,
            ),
            s6,
        ),
        s7,
    ) == weight(s0, 0) | weight(s1, 1) | weight(s2, 2) | weight(s3, 3) | weight(s4, 4) | weight(
        s5,
        5,
    ) | weight(s6, 6) | weight(s7, 7)) by (bit_vector);
}

/// Shifts one sample into the accumulator.
fn shift_in(accumulator: u8, sample: u8) -> (next: u8)
    ensures
        next == shifted_in(accumulator, sample),
{
    let toggled: u8 = if sample == 0x7F || sample == 0x7E {
        accumulator ^ 1
    } else {
        accumulator
    };
    (toggled >> 1) | ((toggled & 1) << 7)
}

/// Turns the samples read from the line into logical bytes.
pub fn decode_swi_to_uart(swi_msg: &BytesMut) -> (uart_msg: BytesMut)
    requires
        decodable(held(*swi_msg)),
    ensures
        held(uart_msg) == decoded(held(*swi_msg)),
        8 * held(uart_msg).len() == held(*swi_msg).len(),
{
    let count: usize = buffer::len(swi_msg) / SYMBOLS_PER_BYTE;
    let mut uart_msg = buffer::with_capacity(count);
    let mut i: usize = 0;
    while i < count
        invariant
            i <= count,
            8 * count == held(*swi_msg).len(),
            held(*swi_msg).len() <= usize::MAX,
            held(uart_msg) == decoded(held(*swi_msg)).take(i as int),
        decreases count - i,
    {
        let start: usize = i * SYMBOLS_PER_BYTE;
        let mut accumulator: u8 = 0;
        let mut k: usize = 0;
        while k < SYMBOLS_PER_BYTE
            invariant
                i < count,
                k <= 8,
                start == 8 * i,
                8 * count == held(*swi_msg).len(),
                held(*swi_msg).len() <= usize::MAX,
                accumulator == accumulated(held(*swi_msg), start as int, k as nat),
            decreases 8 - k,
        {
            let sample: u8 = buffer::byte_at(swi_msg, start + k);
            accumulator = shift_in(accumulator, sample);
            k = k + 1;
        }
        proof {
            lemma_accumulated_run(held(*swi_msg), start as int);
            assert(decoded(held(*swi_msg)).take(i + 1) == decoded(held(*swi_msg)).take(
                i as int,
            ).push(accumulator));
        }
        buffer::put_u8(&mut uart_msg, accumulator);
        i = i + 1;
    }
    proof {
        assert(decoded(held(*swi_msg)).take(count as int) == decoded(held(*swi_msg)));
    }
    uart_msg
}

/// Turns logical bytes into the symbols to send, where there are not too many
/// of them for a buffer to hold their symbols.
pub fn encode(logical: &BytesMut) -> (physical: Option<BytesMut>)
    ensures
        physical is Some <==> 8 * held(*logical).len() <= isize::MAX,
        physical matches Some(symbols) ==> held(symbols) == encoded(held(*logical)),
{
    if buffer::len(logical) <= isize::MAX as usize / SYMBOLS_PER_BYTE {
        Some(encode_uart_to_swi(logical))
    } else {
        None
    }
}

/// Turns the samples read from the line into logical bytes. Samples that do
/// not come in runs of eight are refused.
pub fn decode(physical: &BytesMut) -> (logical: Option<BytesMut>)
    ensures
        logical is Some <==> decodable(held(*physical)),
        logical is None <==> held(*physical).len() % 8 != 0,
        match logical {
            Some(bytes) => decoding(held(*physical)) == Some(held(bytes)),
            None => decoding(held(*physical)) is None,
        },
{
    if buffer::len(physical) % SYMBOLS_PER_BYTE == 0 {
        Some(decode_swi_to_uart(physical))
    } else {
        None
    }
}

/// What a port with seven data bits hands back of `physical`: each byte
/// without its top bit.
pub open spec fn seven_bit(physical: Seq<u8>) -> Seq<u8> {
    Seq::new(physical.len(), |i: int| physical[i] & 0x7Fu8)
}

/// A buffer of `len` bytes that are all zero.
pub open spec fn zeros(len: nat) -> Seq<u8> {
    Seq::new(len, |i: int| 0u8)
}

proof fn lemma_symbols_are_no_marks(byte: u8)
    ensures
        weight(symbol_of(byte, 0), 0) | weight(symbol_of(byte, 1), 1) | weight(
            symbol_of(byte, 2),
            2,
        ) | weight(symbol_of(byte, 3), 3) | weight(symbol_of(byte, 4), 4) | weight(
            symbol_of(byte, 5),
            5,
        ) | weight(symbol_of(byte, 6), 6) | weight(symbol_of(byte, 7), 7) == 0u8,
{
    assert(weight(symbol_of(byte, 0), 0) | weight(symbol_of(byte, 1), 1) | weight(
        symbol_of(byte, 2),
        2,
    ) | weight(symbol_of(byte, 3), 3) | weight(symbol_of(byte, 4), 4) | weight(
        symbol_of(byte, 5),
        5,
    ) | weight(symbol_of(byte, 6), 6) | weight(symbol_of(byte, 7), 7) == 0u8) by (bit_vector);
}

proof fn lemma_seven_bit_symbols(byte: u8)
    ensures
        weight(symbol_of(byte, 0) & 0x7Fu8, 0) | weight(symbol_of(byte, 1) & 0x7Fu8, 1) | weight(
            symbol_of(byte, 2) & 0x7Fu8,
            2,
        ) | weight(symbol_of(byte, 3) & 0x7Fu8, 3) | weight(symbol_of(byte, 4) & 0x7Fu8, 4)
            | weight(symbol_of(byte, 5) & 0x7Fu8, 5) | weight(symbol_of(byte, 6) & 0x7Fu8, 6)
            | weight(symbol_of(byte, 7) & 0x7Fu8, 7) == byte,
{
    assert(weight(symbol_of(byte, 0) & 0x7Fu8, 0) | weight(symbol_of(byte, 1) & 0x7Fu8, 1)
        | weight(symbol_of(byte, 2) & 0x7Fu8, 2) | weight(symbol_of(byte, 3) & 0x7Fu8, 3) | weight(
        symbol_of(byte, 4) & 0x7Fu8,
        4,
    ) | weight(symbol_of(byte, 5) & 0x7Fu8, 5) | weight(symbol_of(byte, 6) & 0x7Fu8, 6) | weight(
        symbol_of(byte, 7) & 0x7Fu8,
        7,
    ) == byte) by (bit_vector);
}

/// Encoding makes eight symbols of every byte, whatever the bytes are, and
/// each is one of the two symbols of the line. So what was encoded comes in
/// runs of eight: it can be decoded, to as many bytes as were encoded.
pub proof fn lemma_encoded_shape(logical: Seq<u8>)
    ensures
        encoded(logical).len() == 8 * logical.len(),
        forall|i: int|
            0 <= i < encoded(logical).len() ==> (#[trigger] encoded(logical)[i] == SYMBOL_ONE
                || encoded(logical)[i] == SYMBOL_ZERO),
        decodable(encoded(logical)),
        decoding(encoded(logical)) is Some,
        decoded(encoded(logical)).len() == logical.len(),
{
}

/// Decoding is refused exactly where the number of samples is no multiple of
/// eight, whatever the samples are; where it is one, every eight samples make
/// one byte.
pub proof fn lemma_decoding_takes_runs_of_eight(physical: Seq<u8>)
    ensures
        decoding(physical) is None <==> physical.len() % 8 != 0,
        decoding(physical) matches Some(logical) ==> 8 * logical.len() == physical.len()
            && logical == decoded(physical),
{
}

/// Decoding the host's own symbols as they stand gives a zero for every byte:
/// neither symbol is a mark.
pub proof fn lemma_symbols_decode_to_zeros(logical: Seq<u8>)
    ensures
        decoded(encoded(logical)) == zeros(logical.len()),
{
    let physical = encoded(logical);
    assert forall|i: int| 0 <= i < logical.len() implies #[trigger] decoded(physical)[i]
        == 0u8 by {
        lemma_symbols_are_no_marks(logical[i]);
        assert(physical[8 * i + 0] == symbol_of(logical[i], 0));
        assert(physical[8 * i + 1] == symbol_of(logical[i], 1));
        assert(physical[8 * i + 2] == symbol_of(logical[i], 2));
        assert(physical[8 * i + 3] == symbol_of(logical[i], 3));
        assert(physical[8 * i + 4] == symbol_of(logical[i], 4));
        assert(physical[8 * i + 5] == symbol_of(logical[i], 5));
        assert(physical[8 * i + 6] == symbol_of(logical[i], 6));
        assert(physical[8 * i + 7] == symbol_of(logical[i], 7));
    }
    assert(decoded(physical) =~= zeros(logical.len()));
}

/// Encoding and then decoding gives back a buffer whose bytes are all zero.
/// A buffer with a bit set does not come back: its symbols hold no mark.
pub proof fn lemma_round_trip(logical: Seq<u8>)
    requires
        forall|i: int| 0 <= i < logical.len() ==> logical[i] == 0u8,
    ensures
        decoded(encoded(logical)) == logical,
{
    lemma_symbols_decode_to_zeros(logical);
    assert(zeros(logical.len()) =~= logical);
}

/// Seen through a port with seven data bits, the symbols of any buffer decode
/// to that buffer: the symbol of a 1 arrives as a mark, that of a 0 does not.
pub proof fn lemma_round_trip_on_the_line(logical: Seq<u8>)
    ensures
        decoded(seven_bit(encoded(logical))) == logical,
{
    let physical = seven_bit(encoded(logical));
    assert forall|i: int| 0 <= i < logical.len() implies #[trigger] decoded(physical)[i]
        == logical[i] by {
        lemma_seven_bit_symbols(logical[i]);
        assert(physical[8 * i + 0] == symbol_of(logical[i], 0) & 0x7Fu8);
        assert(physical[8 * i + 1] == symbol_of(logical[i], 1) & 0x7Fu8);
        assert(physical[8 * i + 2] == symbol_of(logical[i], 2) & 0x7Fu8);
        assert(physical[8 * i + 3] == symbol_of(logical[i], 3) & 0x7Fu8);
        assert(physical[8 * i + 4] == symbol_of(logical[i], 4) & 0x7Fu8);
        assert(physical[8 * i + 5] == symbol_of(logical[i], 5) & 0x7Fu8);
        assert(physical[8 * i + 6] == symbol_of(logical[i], 6) & 0x7Fu8);
        assert(physical[8 * i + 7] == symbol_of(logical[i], 7) & 0x7Fu8);
    }
    assert(decoded(physical) =~= logical);
}

} // verus!
