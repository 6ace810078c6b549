use vstd::prelude::*;
use vstd::slice::slice_subrange;

verus! {

/// One MIDI message as read from the wire.
#[derive(Clone, Copy, Debug, PartialEq, Eq, Structural)]
pub enum DecodedMessage {
    NoteOn { channel: u8, key: u8, velocity: u8 },
    NoteOff { channel: u8, key: u8, velocity: u8 },
    ControlChange { channel: u8, controller: u8, value: u8 },
    /// Any other message, or bytes that form no message.
    Other,
}

/// Whether a byte is a status byte, which starts a message.
pub open spec fn is_status(b: u8) -> bool {
    b >= 0x80
}

/// The message that one frame of bytes holds. Only the first three bytes
/// count; a frame shorter than three bytes holds no message.
pub open spec fn wire_message(f: Seq<u8>) -> DecodedMessage {
    if f.len() < 3 || f[0] < 0x80 || f[0] >= 0xF0 {
        DecodedMessage::Other
    } else if f[0] < 0x90 {
        DecodedMessage::NoteOff { channel: (f[0] - 0x80) as u8, key: f[1], velocity: f[2] }
    } else if f[0] < 0xA0 {
        DecodedMessage::NoteOn { channel: (f[0] - 0x90) as u8, key: f[1], velocity: f[2] }
    } else if 0xB0 <= f[0] < 0xC0 {
        DecodedMessage::ControlChange { channel: (f[0] - 0xB0) as u8, controller: f[1], value: f[2] }
    } else {
        DecodedMessage::Other
    }
}

/// The messages of `b` from the frame that began at `start` and has reached
/// position `i`: a frame runs from one status byte up to the next one, or to
/// the end of the blob; bytes before the first status byte form a frame too.
pub open spec fn messages_scan(b: Seq<u8>, start: int, i: int) -> Seq<DecodedMessage>
    decreases b.len() - i,
{
    if i >= b.len() {
        seq![wire_message(b.subrange(start, b.len() as int))]
    } else if is_status(b[i]) {
        seq![wire_message(b.subrange(start, i))] + messages_scan(b, i, i + 1)
    } else {
        messages_scan(b, start, i + 1)
    }
}

/// The messages of a raw blob, in the order of their frames.
pub open spec fn blob_messages(b: Seq<u8>) -> Seq<DecodedMessage> {
    if b.len() == 0 {
        Seq::empty()
    } else {
        messages_scan(b, 0, 1)
    }
}

/// Relies on midi_control's `From<&[u8]> for MidiMessage`: under three bytes
/// it gives `Invalid`; else it reads the kind from the high nibble of the
/// first byte below 0xF0 (0x80 note off, 0x90 note on, 0xB0 control change),
/// the channel from its low nibble, and the two data bytes after it. Frames
/// that begin with 0xF0 or above can panic there and are never handed to it.
#[verifier::external_body]
fn decode_frame(frame: &[u8]) -> (r: DecodedMessage)
    requires
        frame@.len() < 3 || frame@[0] < 0xF0,
    ensures
        r == wire_message(frame@),
{
    match midi_control::MidiMessage::from(frame) {
        midi_control::MidiMessage::NoteOn(ch, e) => DecodedMessage::NoteOn { channel: ch as u8, key: e.key, velocity: e.value },
        midi_control::MidiMessage::NoteOff(ch, e) => DecodedMessage::NoteOff { channel: ch as u8, key: e.key, velocity: e.value },
        midi_control::MidiMessage::ControlChange(ch, e) => DecodedMessage::ControlChange { channel: ch as u8, controller: e.control, value: e.value },
        _ => DecodedMessage::Other,
    }
}

/// The message of one frame; system messages (first byte 0xF0 and above)
/// are `Other`.
fn frame_message(frame: &[u8]) -> (r: DecodedMessage)
    ensures
        r == wire_message(frame@),
{
    if frame.len() >= 3 && frame[0] >= 0xF0 {
        DecodedMessage::Other
    } else {
        decode_frame(frame)
    }
}

/// Cuts a raw blob into frames at its status bytes and decodes each frame.
pub fn decode_blob(bytes: &[u8]) -> (r: Vec<DecodedMessage>)
    ensures
        r@ == blob_messages(bytes@),
{
    let n = bytes.len();
    let mut out: Vec<DecodedMessage> = Vec::new();
    if n == 0 {
        return out;
    }
    let mut start: usize = 0;
    let mut i: usize = 1;
    while i < n
        invariant
            n == bytes@.len(),
            start < i <= n,
            out@ + messages_scan(bytes@, start as int, i as int) == blob_messages(bytes@),
        decreases n - i,
    {
        if bytes[i] >= 0x80 {
            let m = frame_message(slice_subrange(bytes, start, i));
            let ghost rest = messages_scan(bytes@, i as int, i + 1);
            assert(out@.push(m) + rest =~= out@ + (seq![m] + rest));
            out.push(m);
            start = i;
        }
        i = i + 1;
    }
    let m = frame_message(slice_subrange(bytes, start, n));
    assert(out@.push(m) =~= out@ + seq![m]);
    out.push(m);
    out
}

} // verus!
