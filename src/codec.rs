//! Wire layout of HCI command packets and of the command-complete event that
//! answers them.
use vstd::prelude::*;
use crate::error::{DecodeError, Error};

verus! {

/// Event code of a command-complete event.
pub const COMMAND_COMPLETE_EVENT: u8 = 0x0e;
/// Event code that wraps every LE sub-event.
pub const LE_META_EVENT: u8 = 0x3e;

/// Set Event Mask.
pub const OP_SET_EVENT_MASK: u16 = 0x0c01;
/// LE Set Event Mask.
pub const OP_LE_SET_EVENT_MASK: u16 = 0x2001;
/// LE Set Advertising Parameters.
pub const OP_SET_ADVERTISING_PARAMETERS: u16 = 0x2006;
/// LE Read Advertising Channel TX Power.
pub const OP_READ_ADVERTISING_TX_POWER: u16 = 0x2007;
/// LE Set Advertising Data.
pub const OP_SET_ADVERTISING_DATA: u16 = 0x2008;
/// LE Set Advertising Enable.
pub const OP_SET_ADVERTISING_ENABLE: u16 = 0x200a;
/// LE Set Scan Parameters.
pub const OP_SET_SCAN_PARAMETERS: u16 = 0x200b;
/// LE Set Scan Enable.
pub const OP_SET_SCAN_ENABLE: u16 = 0x200c;
/// LE Rand.
pub const OP_RAND: u16 = 0x2018;

/// Status byte that means success.
pub const STATUS_SUCCESS: u8 = 0;

/// One event as read from the transport: its code and its parameter bytes.
#[derive(Debug, Clone)]
pub struct EventPacket {
    pub event_code: u8,
    pub parameters: Vec<u8>,
}

/// What an [`EventPacket`] holds, as mathematical values.
pub ghost struct EventView {
    pub event_code: u8,
    pub parameters: Seq<u8>,
}

impl View for EventPacket {
    type V = EventView;

    open spec fn view(&self) -> EventView {
        EventView { event_code: self.event_code, parameters: self.parameters@ }
    }
}

/// A read result with its event seen as mathematical values.
pub open spec fn event_result_view(r: Result<EventPacket, Error>) -> Result<EventView, Error> {
    match r {
        Ok(ev) => Ok(ev@),
        Err(e) => Err(e),
    }
}

/// A byte-vector result seen as a sequence result.
pub open spec fn bytes_result_view(r: Result<Vec<u8>, Error>) -> Result<Seq<u8>, Error> {
    match r {
        Ok(v) => Ok(v@),
        Err(e) => Err(e),
    }
}

pub open spec fn low_byte(x: u16) -> u8 {
    (x % 256) as u8
}

pub open spec fn high_byte(x: u16) -> u8 {
    (x / 256) as u8
}

/// A command packet: the opcode little-endian, the parameter length, the parameters.
pub open spec fn command_packet(opcode: u16, params: Seq<u8>) -> Seq<u8> {
    seq![low_byte(opcode), high_byte(opcode), params.len() as u8] + params
}

/// Encodes a command packet.
pub fn encode_command(opcode: u16, params: &[u8]) -> (r: Vec<u8>)
    requires
        params@.len() <= 255,
    ensures
        r@ == command_packet(opcode, params@),
{
    let mut r: Vec<u8> = Vec::new();
    r.push((opcode % 256) as u8);
    r.push((opcode / 256) as u8);
    r.push(params.len() as u8);
    let mut i: usize = 0;
    while i < params.len()
        invariant
            i <= params@.len(),
            r@ == seq![low_byte(opcode), high_byte(opcode), params@.len() as u8] + params@.subrange(0, i as int),
        decreases params@.len() - i,
    {
        r.push(params[i]);
        i = i + 1;
        assert(params@.subrange(0, i as int) == params@.subrange(0, i - 1 as int).push(params@[i - 1]));
    }
    assert(params@.subrange(0, params@.len() as int) == params@);
    r
}

/// Copies `b[start..end]`.
pub(crate) fn copy_range(b: &[u8], start: usize, end: usize) -> (r: Vec<u8>)
    requires
        start <= end <= b@.len(),
    ensures
        r@ == b@.subrange(start as int, end as int),
{
    let mut r: Vec<u8> = Vec::new();
    let mut i: usize = start;
    while i < end
        invariant
            start <= i <= end <= b@.len(),
            r@ == b@.subrange(start as int, i as int),
        decreases end - i,
    {
        r.push(b[i]);
        i = i + 1;
        assert(b@.subrange(start as int, i as int) == b@.subrange(start as int, i - 1 as int).push(
            b@[i - 1],
        ));
    }
    r
}

/// The return parameters that a command's response carries once its status is
/// checked: a command-complete event for `opcode` whose status byte is zero
/// yields the bytes after the status; a non-zero status yields that status as
/// a controller error; anything else is a decode error, and a failed read is
/// passed through.
pub open spec fn command_outcome(opcode: u16, ev: Result<EventView, Error>) -> Result<Seq<u8>, Error> {
    match ev {
        Err(e) => Err(e),
        Ok(ev) => {
            let p = ev.parameters;
            if ev.event_code != COMMAND_COMPLETE_EVENT {
                Err(Error::Decode(DecodeError::UnexpectedEvent))
            } else if p.len() < 4 {
                Err(Error::Decode(DecodeError::BadLength))
            } else if p[1] != low_byte(opcode) || p[2] != high_byte(opcode) {
                Err(Error::Decode(DecodeError::OpcodeMismatch))
            } else if p[3] != STATUS_SUCCESS {
                Err(Error::ControllerStatus(p[3]))
            } else {
                Ok(p.subrange(4, p.len() as int))
            }
        },
    }
}

/// Checks the response read for the command `opcode` and hands back its
/// return parameters after the status byte.
pub fn complete_command(opcode: u16, ev: Result<EventPacket, Error>) -> (r: Result<Vec<u8>, Error>)
    ensures
        bytes_result_view(r) == command_outcome(opcode, event_result_view(ev)),
{
    let ev = match ev {
        Err(e) => return Err(e),
        Ok(ev) => ev,
    };
    let p = &ev.parameters;
    if ev.event_code != COMMAND_COMPLETE_EVENT {
        return Err(Error::Decode(DecodeError::UnexpectedEvent));
    }
    if p.len() < 4 {
        return Err(Error::Decode(DecodeError::BadLength));
    }
    if p[1] != (opcode % 256) as u8 || p[2] != (opcode / 256) as u8 {
        return Err(Error::Decode(DecodeError::OpcodeMismatch));
    }
    if p[3] != STATUS_SUCCESS {
        return Err(Error::ControllerStatus(p[3]));
    }
    Ok(copy_range(p.as_slice(), 4, p.len()))
}

} // verus!
