//! The LE adapter: one exclusively owned transport, the command invoker built
//! on it, and the advertising and scanning commands.
use vstd::prelude::*;
use crate::codec::{
    COMMAND_COMPLETE_EVENT, EventPacket, high_byte, low_byte, EventView, OP_RAND, OP_READ_ADVERTISING_TX_POWER, OP_SET_ADVERTISING_DATA,
    OP_SET_ADVERTISING_ENABLE, OP_SET_ADVERTISING_PARAMETERS, OP_SET_SCAN_ENABLE,
    OP_SET_SCAN_PARAMETERS, OP_SET_EVENT_MASK, OP_LE_SET_EVENT_MASK, bytes_result_view, command_outcome, command_packet, complete_command,
    encode_command, event_result_view,
};
use crate::error::{DecodeError, Error};
use crate::params::{
    AdvertisingParameters, ScanParameters, TxPowerLevel, advertising_data_block,
    advertising_data_bytes, advertising_parameters_bytes, bool_byte, scan_parameters_bytes,
};
use crate::report::{MAX_ADV_LEN, signed_byte, signed_of};

verus! {

/// Bytes of randomness one LE Rand command returns.
pub const RAND_LEN: usize = 8;

/// The raw transport to a controller: writes command packets and reads event
/// packets, each call one transfer.
pub trait Adapter {
    fn write_command(&mut self, packet: &[u8]) -> Result<(), Error>;

    fn read_event(&mut self) -> Result<EventPacket, Error>;
}

/// Advertising control, for callers that need nothing else of an adapter.
pub trait Advertiser {
    fn set_advertising_enable(&mut self, is_enabled: bool) -> Result<(), Error>;

    fn set_advertising_parameters(&mut self, parameters: AdvertisingParameters) -> Result<(), Error>;

    /// More than 31 bytes is refused as a bad parameter.
    fn set_advertising_data(&mut self, data: &[u8]) -> (r: Result<(), Error>)
        ensures
            data@.len() > MAX_ADV_LEN ==> r == Err::<(), Error>(Error::BadParameter),
    ;
}

/// A transport under exclusive ownership, with a record of every transfer
/// made through it: each packet handed to the transport with what the write
/// returned, and what each read returned.
pub struct LEAdapter<A: Adapter> {
    adapter: A,
    writes: Ghost<Seq<(Seq<u8>, Result<(), Error>)>>,
    reads: Ghost<Seq<Result<EventView, Error>>>,
}

/// Return parameters of exactly `n` bytes, or a length error.
pub open spec fn sized_outcome(o: Result<Seq<u8>, Error>, n: nat) -> Result<Seq<u8>, Error> {
    match o {
        Ok(b) => if b.len() == n {
            Ok(b)
        } else {
            Err(Error::Decode(DecodeError::BadLength))
        },
        Err(e) => Err(e),
    }
}

/// The result of a command whose response carries nothing but its status.
pub open spec fn status_result(o: Result<Seq<u8>, Error>) -> Result<(), Error> {
    match sized_outcome(o, 0) {
        Ok(_) => Ok(()),
        Err(e) => Err(e),
    }
}

pub open spec fn rand_view(r: Result<[u8; 8], Error>) -> Result<Seq<u8>, Error> {
    match r {
        Ok(b) => Ok(b@),
        Err(e) => Err(e),
    }
}

/// The TX power level a response's return parameters give.
pub open spec fn tx_power_of(o: Result<Seq<u8>, Error>) -> Result<TxPowerLevel, Error> {
    match sized_outcome(o, 1) {
        Ok(b) => Ok(TxPowerLevel { dbm: signed_of(b[0]) }),
        Err(e) => Err(e),
    }
}

pub open spec fn set_advertising_data_packet(data: Seq<u8>) -> Seq<u8> {
    command_packet(OP_SET_ADVERTISING_DATA, advertising_data_bytes(data))
}

impl<A: Adapter> LEAdapter<A> {
    /// The transport.
    pub closed spec fn transport(&self) -> A {
        self.adapter
    }

    /// Every packet handed to the transport, with what its write returned.
    pub closed spec fn writes(&self) -> Seq<(Seq<u8>, Result<(), Error>)> {
        self.writes@
    }

    /// What every read of the transport returned.
    pub closed spec fn reads(&self) -> Seq<Result<EventView, Error>> {
        self.reads@
    }

    /// `post` is `pre` after exactly one command exchange for `packet`: one
    /// write, then one read unless the write failed.
    pub open spec fn exchanged(pre: Self, post: Self, packet: Seq<u8>) -> bool {
        &&& post.writes().len() == pre.writes().len() + 1
        &&& post.writes().drop_last() == pre.writes()
        &&& post.writes().last().0 == packet
        &&& match post.writes().last().1 {
            Err(_) => post.reads() == pre.reads(),
            Ok(_) => post.reads().len() == pre.reads().len() + 1 && post.reads().drop_last()
                == pre.reads(),
        }
    }

    /// The outcome of the exchange that ended in `post`, for command `opcode`:
    /// the write's error, or the checked response.
    pub open spec fn last_outcome(post: Self, opcode: u16) -> Result<Seq<u8>, Error> {
        match post.writes().last().1 {
            Err(e) => Err(e),
            Ok(_) => command_outcome(opcode, post.reads().last()),
        }
    }

    pub fn new(adapter: A) -> (r: Self)
        ensures
            r.transport() == adapter,
            r.writes() == Seq::<(Seq<u8>, Result<(), Error>)>::empty(),
            r.reads() == Seq::<Result<EventView, Error>>::empty(),
    {
        LEAdapter { adapter, writes: Ghost(Seq::empty()), reads: Ghost(Seq::empty()) }
    }

    pub fn adapter_mut(&mut self) -> (r: &mut A)
        ensures
            *r == old(self).transport(),
            final(self).transport() == *final(r),
            final(self).writes() == old(self).writes(),
            final(self).reads() == old(self).reads(),
    {
        &mut self.adapter
    }

    pub fn adapter_ref(&self) -> (r: &A)
        ensures
            *r == self.transport(),
    {
        &self.adapter
    }

    /// Gives the transport back.
    pub fn into_inner(self) -> (r: A)
        ensures
            r == self.transport(),
    {
        self.adapter
    }

    fn write(&mut self, packet: &Vec<u8>) -> (r: Result<(), Error>)
        ensures
            final(self).writes() == old(self).writes().push((packet@, r)),
            final(self).reads() == old(self).reads(),
    {
        let r = self.adapter.write_command(packet.as_slice());
        self.writes = Ghost(self.writes@.push((packet@, r)));
        r
    }

    /// Reads the next event from the transport.
    pub fn read_event(&mut self) -> (r: Result<EventPacket, Error>)
        ensures
            final(self).reads() == old(self).reads().push(event_result_view(r)),
            final(self).writes() == old(self).writes(),
    {
        let r = self.adapter.read_event();
        self.reads = Ghost(self.reads@.push(event_result_view(r)));
        r
    }

    /// Sends command `opcode` with `params`, reads the one event that answers
    /// it, checks it, and returns its return parameters after the status.
    pub fn invoke(&mut self, opcode: u16, params: &[u8]) -> (r: Result<Vec<u8>, Error>)
        requires
            params@.len() <= 255,
        ensures
            Self::exchanged(*old(self), *final(self), command_packet(opcode, params@)),
            bytes_result_view(r) == Self::last_outcome(*final(self), opcode),
    {
        let ghost w0 = self.writes();
        let ghost r0 = self.reads();
        let packet = encode_command(opcode, params);
        let w = self.write(&packet);
        assert(self.writes().drop_last() =~= w0);
        match w {
            Err(e) => Err(e),
            Ok(()) => {
                let ev = self.read_event();
                assert(self.reads().drop_last() =~= r0);
                complete_command(opcode, ev)
            },
        }
    }

    /// Invokes a command whose response carries nothing but its status.
    fn invoke_status_only(&mut self, opcode: u16, params: &[u8]) -> (r: Result<(), Error>)
        requires
            params@.len() <= 255,
        ensures
            Self::exchanged(*old(self), *final(self), command_packet(opcode, params@)),
            r == status_result(Self::last_outcome(*final(self), opcode)),
    {
        match self.invoke(opcode, params) {
            Err(e) => Err(e),
            Ok(rest) => {
                if rest.len() == 0 {
                    Ok(())
                } else {
                    Err(Error::Decode(DecodeError::BadLength))
                }
            },
        }
    }

    /// Reads the advertising channel TX power.
    pub fn get_advertising_tx_power(&mut self) -> (r: Result<TxPowerLevel, Error>)
        ensures
            Self::exchanged(*old(self), *final(self), command_packet(OP_READ_ADVERTISING_TX_POWER, seq![])),
            r == tx_power_of(Self::last_outcome(*final(self), OP_READ_ADVERTISING_TX_POWER)),
    {
        let params: Vec<u8> = Vec::new();
        match self.invoke(OP_READ_ADVERTISING_TX_POWER, params.as_slice()) {
            Err(e) => Err(e),
            Ok(rest) => {
                if rest.len() == 1 {
                    Ok(TxPowerLevel { dbm: signed_byte(rest[0]) })
                } else {
                    Err(Error::Decode(DecodeError::BadLength))
                }
            },
        }
    }

    /// Turns scanning for advertisements on or off.
    pub fn set_scan_enable(&mut self, is_enabled: bool, filter_duplicates: bool) -> (r: Result<(), Error>)
        ensures
            Self::exchanged(
                *old(self),
                *final(self),
                command_packet(OP_SET_SCAN_ENABLE, seq![bool_byte(is_enabled), bool_byte(filter_duplicates)]),
            ),
            r == status_result(Self::last_outcome(*final(self), OP_SET_SCAN_ENABLE)),
    {
        let mut params: Vec<u8> = Vec::new();
        params.push(if is_enabled { 1u8 } else { 0u8 });
        params.push(if filter_duplicates { 1u8 } else { 0u8 });
        assert(params@ =~= seq![bool_byte(is_enabled), bool_byte(filter_duplicates)]);
        self.invoke_status_only(OP_SET_SCAN_ENABLE, params.as_slice())
    }

    /// Sets the scanning parameters.
    pub fn set_scan_parameters(&mut self, scan_parameters: ScanParameters) -> (r: Result<(), Error>)
        ensures
            Self::exchanged(
                *old(self),
                *final(self),
                command_packet(OP_SET_SCAN_PARAMETERS, scan_parameters_bytes(scan_parameters)),
            ),
            r == status_result(Self::last_outcome(*final(self), OP_SET_SCAN_PARAMETERS)),
    {
        let params = scan_parameters.to_bytes();
        self.invoke_status_only(OP_SET_SCAN_PARAMETERS, params.as_slice())
    }

    /// Turns advertising on or off.
    pub fn set_advertising_enable(&mut self, is_enabled: bool) -> (r: Result<(), Error>)
        ensures
            Self::exchanged(
                *old(self),
                *final(self),
                command_packet(OP_SET_ADVERTISING_ENABLE, seq![bool_byte(is_enabled)]),
            ),
            r == status_result(Self::last_outcome(*final(self), OP_SET_ADVERTISING_ENABLE)),
    {
        let mut params: Vec<u8> = Vec::new();
        params.push(if is_enabled { 1u8 } else { 0u8 });
        assert(params@ =~= seq![bool_byte(is_enabled)]);
        self.invoke_status_only(OP_SET_ADVERTISING_ENABLE, params.as_slice())
    }

    /// Sets the advertising parameters.
    pub fn set_advertising_parameters(&mut self, parameters: AdvertisingParameters) -> (r: Result<(), Error>)
        ensures
            Self::exchanged(
                *old(self),
                *final(self),
                command_packet(OP_SET_ADVERTISING_PARAMETERS, advertising_parameters_bytes(parameters)),
            ),
            r == status_result(Self::last_outcome(*final(self), OP_SET_ADVERTISING_PARAMETERS)),
    {
        let params = parameters.to_bytes();
        self.invoke_status_only(OP_SET_ADVERTISING_PARAMETERS, params.as_slice())
    }

    /// Reads 8 random bytes from the controller.
    pub fn get_rand(&mut self) -> (r: Result<[u8; 8], Error>)
        ensures
            Self::exchanged(*old(self), *final(self), command_packet(OP_RAND, seq![])),
            rand_view(r) == sized_outcome(Self::last_outcome(*final(self), OP_RAND), RAND_LEN as nat),
            r is Ok ==> r->Ok_0@.len() == RAND_LEN,
    {
        let params: Vec<u8> = Vec::new();
        match self.invoke(OP_RAND, params.as_slice()) {
            Err(e) => Err(e),
            Ok(rest) => {
                if rest.len() == RAND_LEN {
                    let b: [u8; 8] = [rest[0], rest[1], rest[2], rest[3], rest[4], rest[5], rest[6], rest[7]];
                    assert(b@ =~= rest@);
                    Ok(b)
                } else {
                    Err(Error::Decode(DecodeError::BadLength))
                }
            },
        }
    }

    /// Sets the controller's event mask, which decides the events the
    /// controller delivers. Made once before an event stream is built, so
    /// that only LE-Meta events reach it; the mask is the caller's choice.
    pub fn set_event_mask(&mut self, mask: [u8; 8]) -> (r: Result<(), Error>)
        ensures
            Self::exchanged(*old(self), *final(self), command_packet(OP_SET_EVENT_MASK, mask@)),
            r == status_result(Self::last_outcome(*final(self), OP_SET_EVENT_MASK)),
    {
        self.invoke_status_only(OP_SET_EVENT_MASK, &mask)
    }

    /// Sets the LE event mask, which decides the LE-Meta sub-events the
    /// controller delivers (advertising reports among them).
    pub fn set_le_event_mask(&mut self, mask: [u8; 8]) -> (r: Result<(), Error>)
        ensures
            Self::exchanged(*old(self), *final(self), command_packet(OP_LE_SET_EVENT_MASK, mask@)),
            r == status_result(Self::last_outcome(*final(self), OP_LE_SET_EVENT_MASK)),
    {
        self.invoke_status_only(OP_LE_SET_EVENT_MASK, &mask)
    }

    /// Sets the advertising data. More than 31 bytes is refused before
    /// anything reaches the transport.
    pub fn set_advertising_data(&mut self, data: &[u8]) -> (r: Result<(), Error>)
        ensures
            data@.len() > MAX_ADV_LEN ==> r == Err::<(), Error>(Error::BadParameter) && *final(self)
                == *old(self),
            data@.len() <= MAX_ADV_LEN ==> Self::exchanged(
                *old(self),
                *final(self),
                set_advertising_data_packet(data@),
            ) && r == status_result(Self::last_outcome(*final(self), OP_SET_ADVERTISING_DATA)),
    {
        if data.len() > MAX_ADV_LEN {
            return Err(Error::BadParameter);
        }
        let params = advertising_data_block(data);
        self.invoke_status_only(OP_SET_ADVERTISING_DATA, params.as_slice())
    }
}

/// For a command-complete response that answers `opcode` and carries only a
/// status, the command fails with a controller error holding that status
/// exactly when the status is non-zero, and succeeds otherwise.
pub proof fn lemma_status_decides(opcode: u16, ev: EventView)
    requires
        ev.event_code == COMMAND_COMPLETE_EVENT,
        ev.parameters.len() == 4,
        ev.parameters[1] == low_byte(opcode),
        ev.parameters[2] == high_byte(opcode),
    ensures
        (status_result(command_outcome(opcode, Ok(ev))) == Err::<(), Error>(
            Error::ControllerStatus(ev.parameters[3]),
        )) <==> ev.parameters[3] != 0,
        ev.parameters[3] == 0 ==> status_result(command_outcome(opcode, Ok(ev))) == Ok::<(), Error>(()),
{
}

/// Any eight return bytes of a successful LE Rand response are handed out
/// as they are, whatever they hold.
pub proof fn lemma_rand_any_content(rest: Seq<u8>)
    requires
        rest.len() == RAND_LEN,
    ensures
        sized_outcome(Ok(rest), RAND_LEN as nat) == Ok::<Seq<u8>, Error>(rest),
{
}

impl<A: Adapter> Advertiser for LEAdapter<A> {
    fn set_advertising_enable(&mut self, is_enabled: bool) -> Result<(), Error> {
        LEAdapter::set_advertising_enable(self, is_enabled)
    }

    fn set_advertising_parameters(&mut self, parameters: AdvertisingParameters) -> Result<(), Error> {
        LEAdapter::set_advertising_parameters(self, parameters)
    }

    fn set_advertising_data(&mut self, data: &[u8]) -> Result<(), Error> {
        LEAdapter::set_advertising_data(self, data)
    }
}

} // verus!
