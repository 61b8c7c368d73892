use btle::adapter::{Adapter, LEAdapter};
use btle::codec::{EventPacket, LE_META_EVENT};
use btle::error::{DecodeError, Error};
use btle::pipeline::{filter_meta_event, flatten_reports};
use btle::report::{decode_advertising_report, AddressType, AdvertisingReport, EventType, ReportInfo};
use std::collections::VecDeque;

struct Feed {
    events: VecDeque<Result<EventPacket, Error>>,
}

impl Adapter for Feed {
    fn write_command(&mut self, _packet: &[u8]) -> Result<(), Error> {
        Ok(())
    }

    fn read_event(&mut self) -> Result<EventPacket, Error> {
        self.events.pop_front().unwrap_or(Err(Error::Transport))
    }
}

fn record(event_type: u8, addr_last: u8, data: &[u8], rssi: u8) -> Vec<u8> {
    let mut r = vec![event_type, 1, 0x11, 0x22, 0x33, 0x44, 0x55, addr_last, data.len() as u8];
    r.extend_from_slice(data);
    r.push(rssi);
    r
}

fn meta(records: &[Vec<u8>]) -> Vec<u8> {
    let mut p = vec![0x02, records.len() as u8];
    for r in records {
        p.extend_from_slice(r);
    }
    p
}

fn meta_event(records: &[Vec<u8>]) -> Result<EventPacket, Error> {
    Ok(EventPacket { event_code: LE_META_EVENT, parameters: meta(records) })
}

fn addr_last(r: &ReportInfo) -> u8 {
    r.address[5]
}

#[test]
fn decodes_one_record() {
    let rep = decode_advertising_report(&meta(&[record(0, 0x66, &[2, 1, 6], 0xc4)])).unwrap();
    assert_eq!(rep.reports.len(), 1);
    let r = &rep.reports[0];
    assert_eq!(r.event_type, EventType::AdvInd);
    assert_eq!(r.address_type, AddressType::Random);
    assert_eq!(r.address, [0x11, 0x22, 0x33, 0x44, 0x55, 0x66]);
    assert_eq!(r.data, vec![2, 1, 6]);
    assert_eq!(r.rssi, Some(-60));
}

#[test]
fn rssi_unavailable_is_none() {
    let rep = decode_advertising_report(&meta(&[record(4, 1, &[], 127)])).unwrap();
    assert_eq!(rep.reports[0].rssi, None);
    assert_eq!(rep.reports[0].event_type, EventType::ScanRsp);
    assert!(rep.reports[0].data.is_empty());
}

#[test]
fn decodes_records_in_order() {
    let rep = decode_advertising_report(&meta(&[record(0, 1, &[1], 10), record(3, 2, &[2, 2], 20)])).unwrap();
    assert_eq!(rep.reports.len(), 2);
    assert_eq!(addr_last(&rep.reports[0]), 1);
    assert_eq!(addr_last(&rep.reports[1]), 2);
    assert_eq!(rep.reports[1].event_type, EventType::AdvNonconnInd);
    assert_eq!(rep.reports[1].data, vec![2, 2]);
}

#[test]
fn decodes_twenty_five_records() {
    let recs: Vec<Vec<u8>> = (0..25u8).map(|i| record(i % 5, i, &[i], i)).collect();
    let rep = decode_advertising_report(&meta(&recs)).unwrap();
    assert_eq!(rep.reports.len(), 25);
    for (i, r) in rep.reports.iter().enumerate() {
        assert_eq!(addr_last(r), i as u8);
        assert_eq!(r.data, vec![i as u8]);
    }
}

#[test]
fn record_count_out_of_range_is_refused() {
    let recs: Vec<Vec<u8>> = (0..26u8).map(|i| record(0, i, &[], 0)).collect();
    assert_eq!(decode_advertising_report(&meta(&recs)).err(), Some(DecodeError::BadField));
    assert_eq!(decode_advertising_report(&[0x02, 0]).err(), Some(DecodeError::BadField));
}

#[test]
fn malformed_records_are_refused() {
    assert_eq!(decode_advertising_report(&[0x02]).err(), Some(DecodeError::BadLength));
    assert_eq!(
        decode_advertising_report(&meta(&[record(9, 1, &[], 0)])).err(),
        Some(DecodeError::BadField)
    );
    let mut short = meta(&[record(0, 1, &[1, 2, 3], 0)]);
    short.pop();
    assert_eq!(decode_advertising_report(&short).err(), Some(DecodeError::BadLength));
    let mut long = meta(&[record(0, 1, &[1], 0)]);
    long.push(0);
    assert_eq!(decode_advertising_report(&long).err(), Some(DecodeError::BadLength));
    assert_eq!(
        decode_advertising_report(&[0x01, 0x00, 0x00]).err(),
        Some(DecodeError::UnexpectedSubEvent)
    );
    let mut too_much = vec![0u8; 32];
    too_much[0] = 1;
    assert_eq!(
        decode_advertising_report(&meta(&[record(0, 1, &too_much, 0)])).err(),
        Some(DecodeError::BadField)
    );
}

#[test]
fn non_meta_events_are_dropped() {
    for code in [0x00u8, 0x05, 0x0e, 0x0f, 0x3d, 0x3f, 0xff] {
        let ev = Ok(EventPacket { event_code: code, parameters: meta(&[record(0, 1, &[], 0)]) });
        assert!(filter_meta_event(ev).is_none());
    }
}

#[test]
fn read_errors_pass_the_filter() {
    assert!(matches!(filter_meta_event(Err(Error::Transport)), Some(Err(Error::Transport))));
}

#[test]
fn flatten_keeps_order_and_errors() {
    let a = decode_advertising_report(&meta(&[record(0, 1, &[], 0), record(0, 2, &[], 0)])).unwrap();
    let b = decode_advertising_report(&meta(&[record(0, 3, &[], 0)])).unwrap();
    let out = flatten_reports(vec![Ok(a), Err(Error::Decode(DecodeError::BadLength)), Ok(b)]);
    assert_eq!(out.len(), 4);
    assert_eq!(addr_last(out[0].as_ref().unwrap()), 1);
    assert_eq!(addr_last(out[1].as_ref().unwrap()), 2);
    assert!(matches!(out[2], Err(Error::Decode(DecodeError::BadLength))));
    assert_eq!(addr_last(out[3].as_ref().unwrap()), 3);
    let empty = flatten_reports(vec![Ok(AdvertisingReport { reports: Vec::new() })]);
    assert!(empty.is_empty());
}

#[test]
fn flatten_round_trips_collections() {
    for n in [1u8, 2, 25] {
        let recs: Vec<Vec<u8>> = (0..n).map(|i| record(0, i, &[i, i], 0)).collect();
        let rep = decode_advertising_report(&meta(&recs)).unwrap();
        let out = flatten_reports(vec![Ok(rep)]);
        assert_eq!(out.len(), n as usize);
        for (i, r) in out.iter().enumerate() {
            let r = r.as_ref().unwrap();
            assert_eq!(addr_last(r), i as u8);
            assert_eq!(r.data, vec![i as u8, i as u8]);
        }
    }
}

#[test]
fn malformed_meta_event_yields_one_error_and_stream_continues() {
    let feed = Feed {
        events: vec![
            Ok(EventPacket { event_code: LE_META_EVENT, parameters: vec![0x02, 1, 0] }),
            meta_event(&[record(0, 7, &[], 0)]),
        ]
        .into_iter()
        .collect(),
    };
    let mut s = LEAdapter::new(feed).advertising_report_stream();
    assert!(matches!(s.pull(), Some(Err(Error::Decode(DecodeError::BadLength)))));
    let next = s.pull().unwrap().unwrap();
    assert_eq!(addr_last(&next.reports[0]), 7);
    let back = s.into_adapter();
    assert!(back.adapter_ref().events.is_empty());
}

#[test]
fn other_meta_sub_event_is_a_decode_error() {
    let feed = Feed {
        events: vec![Ok(EventPacket { event_code: LE_META_EVENT, parameters: vec![0x01, 0, 0] })]
            .into_iter()
            .collect(),
    };
    let mut s = LEAdapter::new(feed).advertising_report_stream();
    assert!(matches!(s.pull(), Some(Err(Error::Decode(DecodeError::UnexpectedSubEvent)))));
}

#[test]
fn event_stream_yields_each_read() {
    let feed = Feed {
        events: vec![Ok(EventPacket { event_code: 0x05, parameters: vec![1] }), Err(Error::Transport)]
            .into_iter()
            .collect(),
    };
    let mut s = LEAdapter::new(feed).hci_event_stream();
    assert_eq!(s.next().unwrap().event_code, 0x05);
    assert!(matches!(s.next(), Err(Error::Transport)));
    assert!(matches!(s.next(), Err(Error::Transport)));
    let _ = s.into_adapter();
}

#[test]
fn advertisement_stream_flattens_in_order() {
    let feed = Feed {
        events: vec![
            meta_event(&[record(0, 1, &[], 0), record(0, 2, &[], 0)]),
            Ok(EventPacket { event_code: 0x05, parameters: vec![] }),
            Err(Error::Transport),
            meta_event(&[record(0, 3, &[], 0)]),
        ]
        .into_iter()
        .collect(),
    };
    let mut s = LEAdapter::new(feed).advertisement_stream();
    assert_eq!(addr_last(&s.pull().unwrap().unwrap()), 1);
    assert_eq!(addr_last(&s.pull().unwrap().unwrap()), 2);
    assert!(s.pull().is_none());
    assert!(matches!(s.pull(), Some(Err(Error::Transport))));
    assert_eq!(addr_last(&s.pull().unwrap().unwrap()), 3);
    let back = s.into_adapter();
    assert!(back.adapter_ref().events.is_empty());
}

#[test]
fn advertisement_stream_hands_out_every_record_of_a_full_event() {
    let recs: Vec<Vec<u8>> = (0..25u8).map(|i| record(0, i, &[i], 0)).collect();
    let feed = Feed { events: vec![meta_event(&recs), meta_event(&[record(0, 99, &[], 0)])].into_iter().collect() };
    let mut s = LEAdapter::new(feed).advertisement_stream();
    for i in 0..25u8 {
        let r = s.pull().unwrap().unwrap();
        assert_eq!(addr_last(&r), i);
        assert_eq!(r.data, vec![i]);
    }
    assert_eq!(addr_last(&s.pull().unwrap().unwrap()), 99);
    assert!(matches!(s.pull(), Some(Err(Error::Transport))));
}

#[test]
fn advertisement_stream_single_record_event() {
    let feed = Feed { events: vec![meta_event(&[record(2, 5, &[1, 2], 0xd0)])].into_iter().collect() };
    let mut s = LEAdapter::new(feed).advertisement_stream();
    let r = s.pull().unwrap().unwrap();
    assert_eq!(addr_last(&r), 5);
    assert_eq!(r.event_type, EventType::AdvScanInd);
    assert_eq!(r.rssi, Some(-48));
    assert!(matches!(s.pull(), Some(Err(Error::Transport))));
}
