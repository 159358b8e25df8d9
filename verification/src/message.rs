//! The framing of messages on the wire: two bytes of length, high byte first, then the message.

use vstd::prelude::*;

use crate::io_error::{ErrorKind, IoError};

verus! {

/// The number of bytes before a message.
pub const HEADER_LENGTH: usize = 2;

/// The longest message.
pub const MESSAGE_LIMIT: usize = 65535;

/// The length that a header gives.
pub open spec fn length_in(header: Seq<u8>) -> nat {
    (header[0] * 256 + header[1]) as nat
}

/// The header of a message.
pub open spec fn header_of(length: nat) -> Seq<u8> {
    seq![(length / 256) as u8, (length % 256) as u8]
}

/// A message with its header.
pub open spec fn framed(message: Seq<u8>) -> Seq<u8> {
    header_of(message.len()) + message
}

/// Empties a buffer and leaves room for a header in it. The message is to be appended.
pub fn start_frame(buffer: &mut Vec<u8>)
    ensures
        final(buffer)@ == seq![0u8, 0u8],
{
    buffer.clear();
    buffer.push(0);
    buffer.push(0);
    proof {
        assert(buffer@ =~= seq![0u8, 0u8]);
    }
}

/// Writes the header of the message in a buffer, in the room that was left for it. Fails where the
/// message is too long.
pub fn seal_frame(buffer: &mut Vec<u8>) -> (result: Result<(), IoError>)
    requires
        old(buffer)@.len() >= HEADER_LENGTH,
    ensures
        match result {
            Ok(_) => old(buffer)@.len() - HEADER_LENGTH <= MESSAGE_LIMIT && final(buffer)@ == framed(
                old(buffer)@.skip(HEADER_LENGTH as int),
            ),
            Err(err) => {
                &&& old(buffer)@.len() - HEADER_LENGTH > MESSAGE_LIMIT
                &&& final(buffer)@ == old(buffer)@
                &&& err.kind == ErrorKind::InvalidInput
                &&& err.os_code is None
                &&& err.message@ == "Data too large"@
            },
        },
{
    let length: usize = buffer.len() - HEADER_LENGTH;
    if length > MESSAGE_LIMIT {
        return Err(IoError::new(ErrorKind::InvalidInput, "Data too large"));
    }
    let high: u8 = (length / 256) as u8;
    let low: u8 = (length % 256) as u8;
    buffer.set(0, high);
    buffer.set(1, low);
    proof {
        assert(buffer@ =~= framed(old(buffer)@.skip(HEADER_LENGTH as int)));
    }
    Ok(())
}

/// The length of the message that follows a header.
pub fn message_length(high: u8, low: u8) -> (length: usize)
    ensures
        length == length_in(seq![high, low]),
        length <= MESSAGE_LIMIT,
{
    high as usize * 256 + low as usize
}

/// Makes a buffer as long as the message that is to be read into it.
pub fn prepare_buffer(buffer: &mut Vec<u8>, length: usize)
    ensures
        final(buffer)@.len() == length,
        forall|at: int|
            0 <= at < length ==> final(buffer)@[at] == if at < old(buffer)@.len() {
                old(buffer)@[at]
            } else {
                0
            },
{
    buffer.resize(length, 0);
}

/// A message is read back as it was written: the header gives its length, and it follows.
pub proof fn framed_messages_read_back(message: Seq<u8>)
    requires
        message.len() <= MESSAGE_LIMIT,
    ensures
        framed(message).len() == HEADER_LENGTH + message.len(),
        length_in(framed(message).take(HEADER_LENGTH as int)) == message.len(),
        framed(message).skip(HEADER_LENGTH as int) == message,
{
    let frame = framed(message);
    let length = message.len();
    assert(frame.skip(HEADER_LENGTH as int) =~= message);
    assert(frame.take(HEADER_LENGTH as int) =~= header_of(length));
    assert(length / 256 < 256 && length % 256 < 256);
    assert((length / 256) * 256 + length % 256 == length);
}

/// Two frames in a row are read back as the two messages: what follows the first is the second.
pub proof fn frames_do_not_run_together(first: Seq<u8>, second: Seq<u8>)
    requires
        first.len() <= MESSAGE_LIMIT,
    ensures
        ({
            let stream = framed(first) + framed(second);
            let length = length_in(stream.take(HEADER_LENGTH as int)) as int;
            &&& stream.subrange(HEADER_LENGTH as int, HEADER_LENGTH + length) == first
            &&& stream.skip(HEADER_LENGTH + length) == framed(second)
        }),
{
    framed_messages_read_back(first);
    let stream = framed(first) + framed(second);
    assert(stream.take(HEADER_LENGTH as int) =~= framed(first).take(HEADER_LENGTH as int));
    assert(stream.subrange(HEADER_LENGTH as int, HEADER_LENGTH + first.len()) =~= first);
    assert(stream.skip((HEADER_LENGTH + first.len()) as int) =~= framed(second));
}

} // verus!
