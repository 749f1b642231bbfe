use vstd::prelude::*;
use vstd::utf8::encode_utf8;
use super::types::ShowControlCommand;

verus! {

pub const MSC_MANUFACTURER_ID: [u8; 3] = [0x7F, 0x7F, 0x02];
pub const MSC_GO: u8 = 0x01;
pub const MSC_STOP: u8 = 0x02;
pub const MSC_RESUME: u8 = 0x03;
pub const MSC_PAUSE: u8 = 0x07;
pub const MSC_RESET: u8 = 0x0D;
pub const MSC_GO_OFF: u8 = 0x10;

/// The command an MSC message carries: at least seven bytes, starting with `F0 7F`, with
/// the command format byte `02` at offset 3 and the command byte at offset 4.
pub open spec fn msc_command_of(data: Seq<u8>) -> Option<ShowControlCommand> {
    if data.len() < 7 || data[0] != 0xF0 || data[1] != 0x7F || data[3] != 0x02 {
        None
    } else {
        let cmd = data[4];
        if cmd == MSC_GO {
            Some(ShowControlCommand::Go)
        } else if cmd == MSC_STOP {
            Some(ShowControlCommand::Stop)
        } else if cmd == MSC_RESUME {
            Some(ShowControlCommand::Resume)
        } else if cmd == MSC_PAUSE {
            Some(ShowControlCommand::Pause)
        } else if cmd == MSC_RESET {
            Some(ShowControlCommand::Reset)
        } else if cmd == MSC_GO_OFF {
            Some(ShowControlCommand::GoOff)
        } else if cmd == 0x0B {
            Some(ShowControlCommand::Fire(data[5]))
        } else {
            None
        }
    }
}

pub fn parse_msc(data: &[u8]) -> (r: Option<ShowControlCommand>)
    ensures
        r == msc_command_of(data@),
{
    if data.len() < 7 {
        return None;
    }
    if data[0] != 0xF0 {
        return None;
    }
    if data[1] != 0x7F {
        return None;
    }
    if data[3] != 0x02 {
        return None;
    }
    let cmd = data[4];
    match cmd {
        MSC_GO => Some(ShowControlCommand::Go),
        MSC_STOP => Some(ShowControlCommand::Stop),
        MSC_RESUME => Some(ShowControlCommand::Resume),
        MSC_PAUSE => Some(ShowControlCommand::Pause),
        MSC_RESET => Some(ShowControlCommand::Reset),
        MSC_GO_OFF => Some(ShowControlCommand::GoOff),
        0x0B if data.len() > 5 => {
            let fire = data[5];
            Some(ShowControlCommand::Fire(fire))
        },
        _ => None,
    }
}

/// The bytes of an MSC message: `F0 7F <device> 02`, the command byte(s), and `F7`.
/// Cue numbers are sent as their UTF-8 text.
pub open spec fn msc_bytes(command: ShowControlCommand, device_id: u8) -> Seq<u8> {
    let body: Seq<u8> = match command {
        ShowControlCommand::Go => seq![MSC_GO],
        ShowControlCommand::Stop => seq![MSC_STOP],
        ShowControlCommand::Resume => seq![MSC_RESUME],
        ShowControlCommand::Pause => seq![MSC_PAUSE],
        ShowControlCommand::Reset => seq![MSC_RESET],
        ShowControlCommand::GoOff => seq![MSC_GO_OFF],
        ShowControlCommand::Fire(n) => seq![0x0Bu8, n],
        ShowControlCommand::GoCue(cue) => seq![MSC_GO] + encode_utf8(cue@),
        ShowControlCommand::LoadCue(cue) => seq![0x11u8] + encode_utf8(cue@),
    };
    seq![0xF0u8, 0x7Fu8, device_id, 0x02u8] + body + seq![0xF7u8]
}

pub fn build_msc(command: ShowControlCommand, device_id: u8) -> (msg: Vec<u8>)
    ensures
        msg@ == msc_bytes(command, device_id),
{
    let mut msg = vec![0xF0, 0x7F, device_id, 0x02];
    match command {
        ShowControlCommand::Go => msg.push(MSC_GO),
        ShowControlCommand::Stop => msg.push(MSC_STOP),
        ShowControlCommand::Resume => msg.push(MSC_RESUME),
        ShowControlCommand::Pause => msg.push(MSC_PAUSE),
        ShowControlCommand::Reset => msg.push(MSC_RESET),
        ShowControlCommand::GoOff => msg.push(MSC_GO_OFF),
        ShowControlCommand::Fire(n) => {
            msg.push(0x0B);
            msg.push(n);
        },
        ShowControlCommand::GoCue(cue) => {
            msg.push(MSC_GO);
            append_bytes(&mut msg, cue.as_str().as_bytes());
        },
        ShowControlCommand::LoadCue(cue) => {
            msg.push(0x11);
            append_bytes(&mut msg, cue.as_str().as_bytes());
        },
    }
    msg.push(0xF7);
    msg
}

fn append_bytes(msg: &mut Vec<u8>, bytes: &[u8])
    ensures
        final(msg)@ == old(msg)@ + bytes@,
{
    let ghost start = msg@;
    let mut i: usize = 0;
    while i < bytes.len()
        invariant
            i <= bytes@.len(),
            msg@ == start + bytes@.subrange(0, i as int),
        decreases bytes@.len() - i,
    {
        msg.push(bytes[i]);
        i += 1;
        assert(bytes@.subrange(0, i as int) == bytes@.subrange(0, i - 1).push(bytes@[i - 1]));
    }
    assert(bytes@.subrange(0, bytes@.len() as int) == bytes@);
}

/// Building a message and parsing it back yields the command for `Fire` and for no
/// other command: the one-byte commands make six-byte messages, which are too short
/// to parse, `GoCue` parses as `Go` or not at all, and `LoadCue`'s byte is not parsed.
pub proof fn lemma_build_then_parse(command: ShowControlCommand, device_id: u8)
    ensures
        msc_command_of(msc_bytes(command, device_id)) == Some(command) <==> command is Fire,
{
    let b = msc_bytes(command, device_id);
    match command {
        ShowControlCommand::GoCue(cue) => {
            assert(b[4] == MSC_GO);
        },
        ShowControlCommand::LoadCue(cue) => {
            assert(b[4] == 0x11);
        },
        _ => {},
    }
}

} // verus!

verus! {

/// Every message `build_msc` makes is one that `parse_midi_message` decodes as system
/// exclusive data (its status byte is `F0`).
pub proof fn lemma_msc_message_is_sysex(command: ShowControlCommand, device_id: u8)
    ensures
        crate::midi_control::manager::is_decodable(msc_bytes(command, device_id)),
        crate::midi_control::manager::status_kind(msc_bytes(command, device_id)[0]) == 0xF,
        msc_bytes(command, device_id).len() >= 6,
{
}

} // verus!
