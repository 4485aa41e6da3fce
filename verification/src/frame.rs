//! Frames on the line: the single bytes the host sends, and how a reply is cut
//! out of what came back.

use crate::buffer;
use crate::buffer::held;
use crate::buffer::resized;
use crate::buffer::truncated;
use crate::codec::decode_swi_to_uart;
use crate::codec::decoded;
use crate::codec::encode_uart_to_swi;
use crate::codec::encoded;
use crate::error::Error;
use bytes::BytesMut;
use vstd::prelude::*;

verus! {

/// The byte that wakes the device. It is written as it is, at the wake
/// profile.
pub const WAKE_REQUEST: u8 = 0x00;

/// The byte that asks the device to drive its reply onto the line.
pub const TRANSMIT_FLAG: u8 = 0x88;

/// The byte that sends the device to sleep.
pub const SLEEP_REQUEST: u8 = 0xCC;

/// The most bytes a logical frame can have.
pub const MAX_LOGICAL_FRAME: usize = 151;

/// The most bytes a physical frame can have: eight for each logical byte.
pub const MAX_PHYSICAL_FRAME: usize = 1208;

/// The number of physical bytes read for the answer to a wake pulse: the flag
/// and four bytes of status.
pub const WAKE_RESPONSE_SIZE: usize = 40;

/// The time that one physical byte takes on the line, in microseconds.
pub const BYTE_TIME: u64 = 45;

/// The time for which the line is given to `logical_len` logical bytes, in
/// microseconds.
pub open spec fn transmission_time(logical_len: nat) -> nat {
    8 * logical_len * 45
}

/// Whether a frame of this many logical bytes can be sent: its symbols fit a
/// buffer, and its time on the line fits the clock.
pub open spec fn sendable(logical_len: nat) -> bool {
    8 * logical_len <= isize::MAX && transmission_time(logical_len) <= u64::MAX
}

/// Whether `frame` can be sent.
pub fn can_send(frame: &BytesMut) -> (can: bool)
    ensures
        can == sendable(held(*frame).len()),
{
    let len: usize = buffer::len(frame);
    let fits_buffer: bool = len <= isize::MAX as usize / 8;
    let fits_clock: bool = len as u64 <= u64::MAX / (8 * BYTE_TIME);
    assert(fits_buffer == (8 * len <= isize::MAX));
    assert(fits_clock == (8 * len * 45 <= u64::MAX));
    fits_buffer && fits_clock
}

/// What answered a transmit flag, once the flag's echo is taken off: the
/// samples are filled up with idle line to `size` and decoded, and the first
/// byte is dropped.
pub open spec fn answer_of(received: Seq<u8>, size: nat) -> Seq<u8> {
    decoded(resized(received, size, 0)).skip(1)
}

/// The length that the answer declares: its own first byte.
pub open spec fn declared_len(received: Seq<u8>) -> u8 {
    answer_of(received, MAX_PHYSICAL_FRAME as nat)[0]
}

/// The logical reply in what was read after a transmit flag. A declared
/// length above the largest frame is a timeout; otherwise the reply is the
/// answer cut to the declared length.
pub open spec fn reply_of(received: Seq<u8>) -> Result<Seq<u8>, Error> {
    if declared_len(received) > MAX_LOGICAL_FRAME {
        Err(Error::Timeout)
    } else {
        Ok(truncated(answer_of(received, MAX_PHYSICAL_FRAME as nat), declared_len(received) as nat))
    }
}

/// The status that answered the flag after a wake pulse.
pub open spec fn acknowledgment_of(received: Seq<u8>) -> Seq<u8> {
    answer_of(received, WAKE_RESPONSE_SIZE as nat)
}

/// The symbols of the single byte `byte`.
pub fn pulse(byte: u8) -> (symbols: BytesMut)
    ensures
        held(symbols) == encoded(seq![byte]),
{
    let mut logical = buffer::with_capacity(1);
    buffer::put_u8(&mut logical, byte);
    assert(held(logical) =~= seq![byte]);
    encode_uart_to_swi(&logical)
}

/// The single byte `byte`, as it is.
pub fn single(byte: u8) -> (bytes: BytesMut)
    ensures
        held(bytes) == seq![byte],
{
    let mut bytes = buffer::with_capacity(1);
    buffer::put_u8(&mut bytes, byte);
    assert(held(bytes) =~= seq![byte]);
    bytes
}

/// Decodes what answered a transmit flag and takes the flag's echo off.
fn answer(received: BytesMut, size: usize) -> (logical: BytesMut)
    requires
        size % 8 == 0,
        8 <= size <= isize::MAX,
    ensures
        held(logical) == answer_of(held(received), size as nat),
        8 * (held(logical).len() + 1) == size,
{
    let mut samples = received;
    buffer::resize(&mut samples, size, 0);
    let mut logical = decode_swi_to_uart(&samples);
    let _flag = buffer::split_to(&mut logical, 1);
    logical
}

/// Cuts the logical reply out of what was read after a transmit flag.
///
/// The second decoded byte says how long the reply is. A length above
/// [`MAX_LOGICAL_FRAME`] is a timeout, never a shortened reply.
pub fn extract_reply(received: BytesMut) -> (reply: Result<BytesMut, Error>)
    ensures
        match reply {
            Ok(bytes) => reply_of(held(received)) == Ok::<Seq<u8>, Error>(held(bytes)),
            Err(error) => reply_of(held(received)) == Err::<Seq<u8>, Error>(error),
        },
        reply is Err <==> declared_len(held(received)) > MAX_LOGICAL_FRAME,
        reply is Err ==> reply == Err::<BytesMut, Error>(Error::Timeout),
{
    let mut logical = answer(received, MAX_PHYSICAL_FRAME);
    let declared: u8 = buffer::byte_at(&logical, 0);
    if declared as usize > MAX_LOGICAL_FRAME {
        return Err(Error::Timeout);
    }
    buffer::truncate(&mut logical, declared as usize);
    Ok(logical)
}

/// Cuts the status out of what was read after the flag that follows a wake
/// pulse.
pub fn extract_acknowledgment(received: BytesMut) -> (status: BytesMut)
    ensures
        held(status) == acknowledgment_of(held(received)),
        held(status).len() == 4,
{
    answer(received, WAKE_RESPONSE_SIZE)
}

/// A declared length above the largest frame is a timeout and never a reply,
/// whatever else was read.
pub proof fn lemma_oversized_reply_is_timeout(samples: Seq<u8>)
    requires
        declared_len(samples) > MAX_LOGICAL_FRAME,
    ensures
        reply_of(samples) == Err::<Seq<u8>, Error>(Error::Timeout),
{
}

/// A reply never has more bytes than it declares, nor more than the largest
/// frame.
pub proof fn lemma_reply_is_bounded(samples: Seq<u8>)
    ensures
        reply_of(samples) matches Ok(reply) ==> reply.len() <= declared_len(samples)
            && reply.len() <= MAX_LOGICAL_FRAME,
{
}

/// A reply is what was decoded after the echo of the flag, byte for byte, as
/// far as it declares and the buffer reaches. Its first byte is the length
/// that it declares.
pub proof fn lemma_reply_follows_flag(samples: Seq<u8>)
    requires
        declared_len(samples) <= MAX_LOGICAL_FRAME,
    ensures
        reply_of(samples) matches Ok(reply) && {
            let logical = decoded(resized(samples, MAX_PHYSICAL_FRAME as nat, 0));
            &&& logical.len() == MAX_LOGICAL_FRAME
            &&& reply.len() == if declared_len(samples) < MAX_LOGICAL_FRAME {
                declared_len(samples) as int
            } else {
                MAX_LOGICAL_FRAME - 1
            }
            &&& forall|i: int| 0 <= i < reply.len() ==> reply[i] == logical[i + 1]
            &&& reply.len() > 0 ==> reply[0] == declared_len(samples)
        },
{
}

} // verus!
