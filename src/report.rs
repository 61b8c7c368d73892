//! LE advertising reports: the records one LE-Meta event bundles, and their
//! decoding from the event's parameter bytes.
use vstd::prelude::*;
use crate::codec::copy_range;
use crate::error::DecodeError;

verus! {

/// Sub-event code of an LE advertising report.
pub const ADVERTISING_REPORT_SUBEVENT: u8 = 0x02;
/// Most advertising-data bytes one record may carry.
pub const MAX_ADV_LEN: usize = 31;
/// Most records one advertising-report event may bundle.
pub const MAX_REPORTS: u8 = 25;
/// RSSI byte that says no signal strength is available.
pub const RSSI_UNAVAILABLE: u8 = 127;

/// Kind of advertising PDU a record was built from.
#[derive(Debug, Clone, Copy, PartialEq, Eq, Structural)]
pub enum EventType {
    /// Connectable undirected advertising.
    AdvInd,
    /// Connectable directed advertising.
    AdvDirectInd,
    /// Scannable undirected advertising.
    AdvScanInd,
    /// Non-connectable undirected advertising.
    AdvNonconnInd,
    /// Scan response.
    ScanRsp,
}

/// Kind of the advertiser's device address.
#[derive(Debug, Clone, Copy, PartialEq, Eq, Structural)]
pub enum AddressType {
    Public,
    Random,
}

pub open spec fn event_type_from(b: u8) -> Option<EventType> {
    if b == 0 {
        Some(EventType::AdvInd)
    } else if b == 1 {
        Some(EventType::AdvDirectInd)
    } else if b == 2 {
        Some(EventType::AdvScanInd)
    } else if b == 3 {
        Some(EventType::AdvNonconnInd)
    } else if b == 4 {
        Some(EventType::ScanRsp)
    } else {
        None
    }
}

pub open spec fn address_type_from(b: u8) -> Option<AddressType> {
    if b == 0 {
        Some(AddressType::Public)
    } else if b == 1 {
        Some(AddressType::Random)
    } else {
        None
    }
}

/// A byte read as a two's-complement signed value.
pub open spec fn signed_of(b: u8) -> i8 {
    if b < 128 {
        b as i8
    } else {
        (b as int - 256) as i8
    }
}

/// The signal strength an RSSI byte carries, if any.
pub open spec fn rssi_from(b: u8) -> Option<i8> {
    if b == RSSI_UNAVAILABLE {
        None
    } else {
        Some(signed_of(b))
    }
}

pub fn event_type_of(b: u8) -> (r: Option<EventType>)
    ensures
        r == event_type_from(b),
{
    match b {
        0 => Some(EventType::AdvInd),
        1 => Some(EventType::AdvDirectInd),
        2 => Some(EventType::AdvScanInd),
        3 => Some(EventType::AdvNonconnInd),
        4 => Some(EventType::ScanRsp),
        _ => None,
    }
}

pub fn address_type_of(b: u8) -> (r: Option<AddressType>)
    ensures
        r == address_type_from(b),
{
    match b {
        0 => Some(AddressType::Public),
        1 => Some(AddressType::Random),
        _ => None,
    }
}

pub fn signed_byte(b: u8) -> (r: i8)
    ensures
        r == signed_of(b),
{
    if b < 128 {
        b as i8
    } else {
        (b as i16 - 256) as i8
    }
}

pub fn rssi_of(b: u8) -> (r: Option<i8>)
    ensures
        r == rssi_from(b),
{
    if b == RSSI_UNAVAILABLE {
        None
    } else {
        Some(signed_byte(b))
    }
}

/// One observed advertisement.
#[derive(Debug, Clone)]
pub struct ReportInfo {
    pub event_type: EventType,
    pub address_type: AddressType,
    /// The 48-bit device address, least significant byte first.
    pub address: [u8; 6],
    /// Advertising data, 0 to 31 bytes.
    pub data: Vec<u8>,
    /// Received signal strength in dBm, when the controller gives one.
    pub rssi: Option<i8>,
}

/// What a [`ReportInfo`] holds, as mathematical values.
pub ghost struct ReportView {
    pub event_type: EventType,
    pub address_type: AddressType,
    pub address: Seq<u8>,
    pub data: Seq<u8>,
    pub rssi: Option<i8>,
}

impl View for ReportInfo {
    type V = ReportView;

    open spec fn view(&self) -> ReportView {
        ReportView {
            event_type: self.event_type,
            address_type: self.address_type,
            address: self.address@,
            data: self.data@,
            rssi: self.rssi,
        }
    }
}

/// The records of one advertising-report event, in the order they were sent.
#[derive(Debug, Clone)]
pub struct AdvertisingReport {
    pub reports: Vec<ReportInfo>,
}

pub open spec fn reports_view(v: Seq<ReportInfo>) -> Seq<ReportView> {
    v.map_values(|r: ReportInfo| r@)
}

impl View for AdvertisingReport {
    type V = Seq<ReportView>;

    open spec fn view(&self) -> Seq<ReportView> {
        reports_view(self.reports@)
    }
}

/// The record that starts at `off` of `b`: event type, address type, six
/// address bytes, a data length of at most 31, the data, and an RSSI byte.
pub open spec fn record_at(b: Seq<u8>, off: int) -> Result<ReportView, DecodeError> {
    if off < 0 || b.len() < off + 9 {
        Err(DecodeError::BadLength)
    } else {
        let n = b[off + 8] as int;
        if n > MAX_ADV_LEN {
            Err(DecodeError::BadField)
        } else if b.len() < off + 10 + n {
            Err(DecodeError::BadLength)
        } else {
            match (event_type_from(b[off]), address_type_from(b[off + 1])) {
                (Some(et), Some(at)) => Ok(
                    ReportView {
                        event_type: et,
                        address_type: at,
                        address: b.subrange(off + 2, off + 8),
                        data: b.subrange(off + 9, off + 9 + n),
                        rssi: rssi_from(b[off + 9 + n]),
                    },
                ),
                _ => Err(DecodeError::BadField),
            }
        }
    }
}

/// Bytes one record takes on the wire.
pub open spec fn record_size(r: ReportView) -> int {
    10 + r.data.len() as int
}

/// Puts `prefix` before the records of a parse result.
pub open spec fn prepend(
    prefix: Seq<ReportView>,
    rest: Result<Seq<ReportView>, DecodeError>,
) -> Result<Seq<ReportView>, DecodeError> {
    match rest {
        Ok(s) => Ok(prefix + s),
        Err(e) => Err(e),
    }
}

/// `n` records back to back from `off` to the end of `b`.
pub open spec fn records_at(b: Seq<u8>, off: int, n: nat) -> Result<Seq<ReportView>, DecodeError>
    decreases n,
{
    if n == 0 {
        if off == b.len() {
            Ok(Seq::empty())
        } else {
            Err(DecodeError::BadLength)
        }
    } else {
        match record_at(b, off) {
            Err(e) => Err(e),
            Ok(r) => prepend(seq![r], records_at(b, off + record_size(r), (n - 1) as nat)),
        }
    }
}

/// The records an LE-Meta event's parameters carry: the sub-event code of an
/// advertising report, a record count from 1 to 25, then that many records
/// filling the rest of the bytes.
pub open spec fn advertising_report_of(p: Seq<u8>) -> Result<Seq<ReportView>, DecodeError> {
    if p.len() < 2 {
        Err(DecodeError::BadLength)
    } else if p[0] != ADVERTISING_REPORT_SUBEVENT {
        Err(DecodeError::UnexpectedSubEvent)
    } else if p[1] == 0 || p[1] > MAX_REPORTS {
        Err(DecodeError::BadField)
    } else {
        records_at(p, 2, p[1] as nat)
    }
}

proof fn lemma_records_len(b: Seq<u8>, off: int, n: nat)
    ensures
        records_at(b, off, n) is Ok ==> records_at(b, off, n)->Ok_0.len() == n,
    decreases n,
{
    if n > 0 {
        if let Ok(r) = record_at(b, off) {
            lemma_records_len(b, off + record_size(r), (n - 1) as nat);
        }
    }
}

/// A decoded advertising report holds exactly as many records as its count
/// byte says: from 1 to 25, never none.
pub proof fn lemma_report_count(p: Seq<u8>)
    requires
        advertising_report_of(p) is Ok,
    ensures
        advertising_report_of(p)->Ok_0.len() == p[1] as nat,
        1 <= advertising_report_of(p)->Ok_0.len() <= MAX_REPORTS,
{
    lemma_records_len(p, 2, p[1] as nat);
}

/// Decodes the record at `off` and gives its size in bytes.
fn decode_record(b: &[u8], off: usize) -> (r: Result<ReportInfo, DecodeError>)
    requires
        off <= b@.len(),
    ensures
        match r {
            Ok(info) => record_at(b@, off as int) == Ok::<ReportView, DecodeError>(info@)
                && off + record_size(info@) <= b@.len(),
            Err(e) => record_at(b@, off as int) == Err::<ReportView, DecodeError>(e),
        },
{
    if b.len() - off < 9 {
        return Err(DecodeError::BadLength);
    }
    let n = b[off + 8] as usize;
    if n > MAX_ADV_LEN {
        return Err(DecodeError::BadField);
    }
    if b.len() - off < 10 + n {
        return Err(DecodeError::BadLength);
    }
    let et = match event_type_of(b[off]) {
        Some(et) => et,
        None => return Err(DecodeError::BadField),
    };
    let at = match address_type_of(b[off + 1]) {
        Some(at) => at,
        None => return Err(DecodeError::BadField),
    };
    let address: [u8; 6] = [b[off + 2], b[off + 3], b[off + 4], b[off + 5], b[off + 6], b[off + 7]];
    let data = copy_range(b, off + 9, off + 9 + n);
    let rssi = rssi_of(b[off + 9 + n]);
    let info = ReportInfo { event_type: et, address_type: at, address, data, rssi };
    assert(info@.address =~= b@.subrange(off + 2, off + 8));
    Ok(info)
}

/// Decodes the parameters of an LE-Meta event as an advertising report.
pub fn decode_advertising_report(p: &[u8]) -> (r: Result<AdvertisingReport, DecodeError>)
    ensures
        match r {
            Ok(rep) => advertising_report_of(p@) == Ok::<Seq<ReportView>, DecodeError>(rep@),
            Err(e) => advertising_report_of(p@) == Err::<Seq<ReportView>, DecodeError>(e),
        },
{
    if p.len() < 2 {
        return Err(DecodeError::BadLength);
    }
    if p[0] != ADVERTISING_REPORT_SUBEVENT {
        return Err(DecodeError::UnexpectedSubEvent);
    }
    let count = p[1];
    if count == 0 || count > MAX_REPORTS {
        return Err(DecodeError::BadField);
    }
    let mut reports: Vec<ReportInfo> = Vec::new();
    let mut off: usize = 2;
    let mut i: u8 = 0;
    let len: usize = p.len();
    while i < count
        invariant
            i <= count,
            2 <= off <= p@.len(),
            len == p@.len(),
            count == p@[1],
            1 <= count <= MAX_REPORTS,
            p@[0] == ADVERTISING_REPORT_SUBEVENT,
            records_at(p@, 2, count as nat) == prepend(
                reports_view(reports@),
                records_at(p@, off as int, (count - i) as nat),
            ),
        decreases count - i,
    {
        match decode_record(p, off) {
            Err(e) => {
                assert(records_at(p@, off as int, (count - i) as nat) == Err::<Seq<ReportView>, DecodeError>(e));
                return Err(e);
            },
            Ok(info) => {
                let size: usize = 10 + info.data.len();
                assert(records_at(p@, off as int, (count - i) as nat) == prepend(
                    seq![info@],
                    records_at(p@, off + size, (count - i - 1) as nat),
                ));
                let ghost before = reports_view(reports@);
                reports.push(info);
                assert(reports_view(reports@) =~= before.push(info@));
                assert(before + (seq![info@] + records_at(p@, off + size, (count - i - 1) as nat)->Ok_0)
                    =~= reports_view(reports@) + records_at(p@, off + size, (count - i - 1) as nat)->Ok_0);
                off = off + size;
                i = i + 1;
            },
        }
    }
    if off != p.len() {
        return Err(DecodeError::BadLength);
    }
    assert(reports_view(reports@) + Seq::<ReportView>::empty() =~= reports_view(reports@));
    Ok(AdvertisingReport { reports })
}

} // verus!
