use btle::adapter::{Adapter, Advertiser, LEAdapter, RAND_LEN};
use btle::codec::{encode_command, EventPacket, COMMAND_COMPLETE_EVENT};
use btle::error::{DecodeError, Error};
use btle::params::{AdvertisingParameters, ScanParameters, TxPowerLevel};
use std::collections::VecDeque;

struct Mock {
    written: Vec<Vec<u8>>,
    events: VecDeque<Result<EventPacket, Error>>,
    fail_writes: bool,
}

impl Mock {
    fn new(events: Vec<Result<EventPacket, Error>>) -> Mock {
        Mock { written: Vec::new(), events: events.into_iter().collect(), fail_writes: false }
    }
}

impl Adapter for Mock {
    fn write_command(&mut self, packet: &[u8]) -> Result<(), Error> {
        self.written.push(packet.to_vec());
        if self.fail_writes {
            Err(Error::Transport)
        } else {
            Ok(())
        }
    }

    fn read_event(&mut self) -> Result<EventPacket, Error> {
        self.events.pop_front().unwrap_or(Err(Error::Transport))
    }
}

fn complete(opcode: u16, status: u8, ret: &[u8]) -> Result<EventPacket, Error> {
    let mut parameters = vec![1, (opcode & 0xff) as u8, (opcode >> 8) as u8, status];
    parameters.extend_from_slice(ret);
    Ok(EventPacket { event_code: COMMAND_COMPLETE_EVENT, parameters })
}

#[test]
fn encode_command_layout() {
    assert_eq!(encode_command(0x200a, &[1]), vec![0x0a, 0x20, 1, 1]);
    assert_eq!(encode_command(0x2018, &[]), vec![0x18, 0x20, 0]);
}

#[test]
fn oversized_advertising_data_is_refused_without_io() {
    for len in [32usize, 33, 64, 255] {
        let mut a = LEAdapter::new(Mock::new(vec![complete(0x2008, 0, &[])]));
        let data = vec![7u8; len];
        assert_eq!(a.set_advertising_data(&data), Err(Error::BadParameter));
        assert!(a.adapter_ref().written.is_empty());
        assert_eq!(a.adapter_ref().events.len(), 1);
    }
}

#[test]
fn advertising_data_sends_one_padded_command() {
    let mut a = LEAdapter::new(Mock::new(vec![complete(0x2008, 0, &[])]));
    assert_eq!(a.set_advertising_data(&[0x02, 0x01, 0x06]), Ok(()));
    let w = &a.adapter_ref().written;
    assert_eq!(w.len(), 1);
    let mut expected = vec![0x08, 0x20, 32, 3, 0x02, 0x01, 0x06];
    expected.resize(3 + 32, 0);
    assert_eq!(w[0], expected);
}

#[test]
fn advertising_data_of_thirty_one_bytes_is_accepted() {
    let mut a = LEAdapter::new(Mock::new(vec![complete(0x2008, 0, &[])]));
    let data: Vec<u8> = (0..31).collect();
    assert_eq!(a.set_advertising_data(&data), Ok(()));
    assert_eq!(a.adapter_ref().written[0].len(), 35);
    assert_eq!(a.adapter_ref().written[0][3], 31);
    assert_eq!(a.adapter_ref().written[0][34], 30);
}

#[test]
fn advertising_data_surfaces_controller_status() {
    let mut a = LEAdapter::new(Mock::new(vec![complete(0x2008, 0x12, &[])]));
    assert_eq!(a.set_advertising_data(&[1, 2]), Err(Error::ControllerStatus(0x12)));
    assert_eq!(a.adapter_ref().written.len(), 1);
    let mut b = LEAdapter::new(Mock::new(vec![complete(0x2008, 0, &[])]));
    assert_eq!(b.set_advertising_data(&[]), Ok(()));
}

#[test]
fn empty_advertising_data_is_all_padding() {
    let mut a = LEAdapter::new(Mock::new(vec![complete(0x2008, 0, &[])]));
    assert_eq!(a.set_advertising_data(&[]), Ok(()));
    let mut expected = vec![0x08, 0x20, 32, 0];
    expected.resize(35, 0);
    assert_eq!(a.adapter_ref().written[0], expected);
}

#[test]
fn get_rand_returns_eight_bytes() {
    let bytes = [0xde, 0xad, 0xbe, 0xef, 0, 1, 2, 0xff];
    let mut a = LEAdapter::new(Mock::new(vec![complete(0x2018, 0, &bytes)]));
    let r = a.get_rand().unwrap();
    assert_eq!(r.len(), RAND_LEN);
    assert_eq!(r, bytes);
    assert_eq!(a.adapter_ref().written[0], vec![0x18, 0x20, 0]);
    let mut z = LEAdapter::new(Mock::new(vec![complete(0x2018, 0, &[0; 8])]));
    assert_eq!(z.get_rand(), Ok([0u8; 8]));
}

#[test]
fn get_rand_with_short_response_is_a_decode_error() {
    let mut a = LEAdapter::new(Mock::new(vec![complete(0x2018, 0, &[1, 2, 3])]));
    assert_eq!(a.get_rand(), Err(Error::Decode(DecodeError::BadLength)));
}

#[test]
fn get_rand_with_error_status() {
    let mut a = LEAdapter::new(Mock::new(vec![complete(0x2018, 0x0c, &[])]));
    assert_eq!(a.get_rand(), Err(Error::ControllerStatus(0x0c)));
}

#[test]
fn tx_power_is_signed() {
    let mut a = LEAdapter::new(Mock::new(vec![complete(0x2007, 0, &[0xf6])]));
    assert_eq!(a.get_advertising_tx_power(), Ok(TxPowerLevel { dbm: -10 }));
    let mut b = LEAdapter::new(Mock::new(vec![complete(0x2007, 0, &[4])]));
    assert_eq!(b.get_advertising_tx_power(), Ok(TxPowerLevel { dbm: 4 }));
    assert_eq!(b.adapter_ref().written[0], vec![0x07, 0x20, 0]);
}

#[test]
fn response_to_another_command_is_a_decode_error() {
    let mut a = LEAdapter::new(Mock::new(vec![complete(0x2008, 0, &[])]));
    assert_eq!(a.set_advertising_enable(true), Err(Error::Decode(DecodeError::OpcodeMismatch)));
}

#[test]
fn non_command_complete_response_is_a_decode_error() {
    let ev = Ok(EventPacket { event_code: 0x3e, parameters: vec![1, 0x0a, 0x20, 0] });
    let mut a = LEAdapter::new(Mock::new(vec![ev]));
    assert_eq!(a.set_advertising_enable(true), Err(Error::Decode(DecodeError::UnexpectedEvent)));
}

#[test]
fn truncated_response_is_a_decode_error() {
    let ev = Ok(EventPacket { event_code: COMMAND_COMPLETE_EVENT, parameters: vec![1, 0x0a, 0x20] });
    let mut a = LEAdapter::new(Mock::new(vec![ev]));
    assert_eq!(a.set_advertising_enable(true), Err(Error::Decode(DecodeError::BadLength)));
}

#[test]
fn write_failure_is_propagated_without_a_read() {
    let mut m = Mock::new(vec![complete(0x200a, 0, &[])]);
    m.fail_writes = true;
    let mut a = LEAdapter::new(m);
    assert_eq!(a.set_advertising_enable(false), Err(Error::Transport));
    assert_eq!(a.adapter_ref().events.len(), 1);
}

#[test]
fn read_failure_is_propagated() {
    let mut a = LEAdapter::new(Mock::new(vec![Err(Error::Transport)]));
    assert_eq!(a.set_scan_enable(true, true), Err(Error::Transport));
    assert_eq!(a.adapter_ref().written.len(), 1);
}

#[test]
fn scan_commands_layout() {
    let mut a = LEAdapter::new(Mock::new(vec![
        complete(0x200c, 0, &[]),
        complete(0x200b, 0, &[]),
    ]));
    assert_eq!(a.set_scan_enable(true, false), Ok(()));
    let p = ScanParameters { scan_type: 1, interval: 0x0010, window: 0x0120, own_address_type: 0, filter_policy: 0 };
    assert_eq!(a.set_scan_parameters(p), Ok(()));
    let w = &a.adapter_ref().written;
    assert_eq!(w[0], vec![0x0c, 0x20, 2, 1, 0]);
    assert_eq!(w[1], vec![0x0b, 0x20, 7, 1, 0x10, 0x00, 0x20, 0x01, 0, 0]);
}

#[test]
fn advertiser_interface_drives_the_adapter() {
    let mut a = LEAdapter::new(Mock::new(vec![
        complete(0x2006, 0, &[]),
        complete(0x2008, 0, &[]),
        complete(0x200a, 0, &[]),
    ]));
    {
        let adv: &mut dyn Advertiser = &mut a;
        let p = AdvertisingParameters {
            interval_min: 0x0800,
            interval_max: 0x0801,
            advertising_type: 0,
            own_address_type: 1,
            peer_address_type: 0,
            peer_address: [1, 2, 3, 4, 5, 6],
            channel_map: 7,
            filter_policy: 0,
        };
        assert_eq!(adv.set_advertising_parameters(p), Ok(()));
        assert_eq!(adv.set_advertising_data(&[9]), Ok(()));
        assert_eq!(adv.set_advertising_enable(true), Ok(()));
        assert_eq!(adv.set_advertising_data(&[0; 40]), Err(Error::BadParameter));
    }
    let w = &a.adapter_ref().written;
    assert_eq!(w.len(), 3);
    assert_eq!(w[0], vec![0x06, 0x20, 15, 0x00, 0x08, 0x01, 0x08, 0, 1, 0, 1, 2, 3, 4, 5, 6, 7, 0]);
    assert_eq!(w[2], vec![0x0a, 0x20, 1, 1]);
}

#[test]
fn adapter_access() {
    let mut a = LEAdapter::new(Mock::new(vec![]));
    a.adapter_mut().fail_writes = true;
    assert!(a.adapter_ref().fail_writes);
    let m = a.into_inner();
    assert!(m.fail_writes);
}

#[test]
fn event_mask_commands_layout() {
    let mut a = LEAdapter::new(Mock::new(vec![
        complete(0x0c01, 0, &[]),
        complete(0x2001, 0x01, &[]),
    ]));
    let mask = [0, 0, 0, 0, 0, 0, 0, 0x20];
    assert_eq!(a.set_event_mask(mask), Ok(()));
    assert_eq!(a.set_le_event_mask([2, 0, 0, 0, 0, 0, 0, 0]), Err(Error::ControllerStatus(0x01)));
    let w = &a.adapter_ref().written;
    assert_eq!(w[0], vec![0x01, 0x0c, 8, 0, 0, 0, 0, 0, 0, 0, 0x20]);
    assert_eq!(w[1], vec![0x01, 0x20, 8, 2, 0, 0, 0, 0, 0, 0, 0]);
}
