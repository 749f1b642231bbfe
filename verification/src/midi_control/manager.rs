use vstd::prelude::*;
use super::types::MidiMessage;

verus! {

/// The high nibble of a status byte: the message kind.
pub open spec fn status_kind(status: u8) -> int {
    status as int / 16
}

/// The low nibble of a status byte: the channel.
pub open spec fn status_channel(status: u8) -> u8 {
    (status as int % 16) as u8
}

/// Whether `parse_midi_message` decodes `data`: note off/on and control change need
/// three bytes, program change two, and any status byte of the form `Fx` is taken as
/// system exclusive (the quarter-frame arm compares the masked kind with `F1`, which a
/// masked kind never equals).
pub open spec fn is_decodable(data: Seq<u8>) -> bool {
    data.len() >= 1 && {
        let k = status_kind(data[0]);
        ||| (k == 0x8 || k == 0x9 || k == 0xB) && data.len() >= 3
        ||| k == 0xC && data.len() >= 2
        ||| k == 0xF
    }
}

/// Decodes the channel messages the controller reacts to and system messages, which
/// all come out as system exclusive data (so MTC quarter frames never reach their own
/// variant).
pub fn parse_midi_message(data: &[u8]) -> (r: Option<MidiMessage>)
    ensures
        r is Some <==> is_decodable(data@),
        is_decodable(data@) ==> ({
            let status = data@[0];
            let channel = status_channel(status);
            let k = status_kind(status);
            &&& k == 0x8 ==> r == Some(
                MidiMessage::NoteOff { channel, note: data@[1], velocity: data@[2] },
            )
            &&& k == 0x9 ==> r == Some(
                MidiMessage::NoteOn { channel, note: data@[1], velocity: data@[2] },
            )
            &&& k == 0xB ==> r == Some(
                MidiMessage::ControlChange { channel, controller: data@[1], value: data@[2] },
            )
            &&& k == 0xC ==> r == Some(MidiMessage::ProgramChange { channel, program: data@[1] })
            &&& k == 0xF ==> (r matches Some(MidiMessage::SysEx(v)) && v@ == data@)
        }),
{
    if data.len() == 0 {
        return None;
    }
    let status = data[0];
    let channel = status & 0x0F;
    let kind = status & 0xF0;
    proof {
        assert(status & 0x0F == status % 16) by (bit_vector);
        assert(status & 0xF0 == (status / 16) * 16) by (bit_vector);
    }
    match kind {
        0x80 if data.len() >= 3 => Some(
            MidiMessage::NoteOff { channel, note: data[1], velocity: data[2] },
        ),
        0x90 if data.len() >= 3 => Some(
            MidiMessage::NoteOn { channel, note: data[1], velocity: data[2] },
        ),
        0xB0 if data.len() >= 3 => Some(
            MidiMessage::ControlChange { channel, controller: data[1], value: data[2] },
        ),
        0xC0 if data.len() >= 2 => Some(MidiMessage::ProgramChange { channel, program: data[1] }),
        0xF0 => Some(MidiMessage::SysEx(vstd::slice::slice_to_vec(data))),
        0xF1 if data.len() >= 2 => {
            let b = data[1];
            let message_type = (b >> 4) & 0x07;
            let low = b & 0x0F;
            proof {
                assert((b >> 4) & 0x07 == (b / 16) % 8) by (bit_vector);
                assert(b & 0x0F == b % 16) by (bit_vector);
            }
            Some(MidiMessage::TimecodeQuarterFrame { message_type, data: low })
        },
        _ => None,
    }
}

} // verus!
