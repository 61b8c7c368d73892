//! Parameter blocks of the LE commands, and their wire layout.
use vstd::prelude::*;
use crate::codec::{high_byte, low_byte};
use crate::report::MAX_ADV_LEN;

verus! {

/// Advertising configuration, forwarded to the controller as it stands.
#[derive(Debug, Clone, Copy)]
pub struct AdvertisingParameters {
    /// Shortest advertising interval, in units of 0.625 ms.
    pub interval_min: u16,
    /// Longest advertising interval, in units of 0.625 ms.
    pub interval_max: u16,
    pub advertising_type: u8,
    pub own_address_type: u8,
    pub peer_address_type: u8,
    pub peer_address: [u8; 6],
    pub channel_map: u8,
    pub filter_policy: u8,
}

/// Scanning configuration, forwarded to the controller as it stands.
#[derive(Debug, Clone, Copy, PartialEq, Eq, Structural)]
pub struct ScanParameters {
    pub scan_type: u8,
    /// Scan interval, in units of 0.625 ms.
    pub interval: u16,
    /// Scan window, in units of 0.625 ms.
    pub window: u16,
    pub own_address_type: u8,
    pub filter_policy: u8,
}

/// Advertising channel transmit power, in dBm.
#[derive(Debug, Clone, Copy, PartialEq, Eq, Structural)]
pub struct TxPowerLevel {
    pub dbm: i8,
}

pub open spec fn advertising_parameters_bytes(p: AdvertisingParameters) -> Seq<u8> {
    seq![
        low_byte(p.interval_min),
        high_byte(p.interval_min),
        low_byte(p.interval_max),
        high_byte(p.interval_max),
        p.advertising_type,
        p.own_address_type,
        p.peer_address_type,
    ] + p.peer_address@ + seq![p.channel_map, p.filter_policy]
}

pub open spec fn scan_parameters_bytes(p: ScanParameters) -> Seq<u8> {
    seq![
        p.scan_type,
        low_byte(p.interval),
        high_byte(p.interval),
        low_byte(p.window),
        high_byte(p.window),
        p.own_address_type,
        p.filter_policy,
    ]
}

/// The advertising-data block: its length, the data, then zero padding up to
/// 31 data bytes.
pub open spec fn advertising_data_bytes(data: Seq<u8>) -> Seq<u8> {
    seq![data.len() as u8] + data + Seq::new((MAX_ADV_LEN - data.len()) as nat, |i: int| 0u8)
}

pub open spec fn bool_byte(b: bool) -> u8 {
    if b {
        1
    } else {
        0
    }
}

impl AdvertisingParameters {
    pub fn to_bytes(&self) -> (r: Vec<u8>)
        ensures
            r@ == advertising_parameters_bytes(*self),
    {
        let mut r: Vec<u8> = Vec::new();
        r.push((self.interval_min % 256) as u8);
        r.push((self.interval_min / 256) as u8);
        r.push((self.interval_max % 256) as u8);
        r.push((self.interval_max / 256) as u8);
        r.push(self.advertising_type);
        r.push(self.own_address_type);
        r.push(self.peer_address_type);
        let mut i: usize = 0;
        while i < 6
            invariant
                i <= 6,
                r@ == seq![
                    low_byte(self.interval_min),
                    high_byte(self.interval_min),
                    low_byte(self.interval_max),
                    high_byte(self.interval_max),
                    self.advertising_type,
                    self.own_address_type,
                    self.peer_address_type,
                ] + self.peer_address@.subrange(0, i as int),
            decreases 6 - i,
        {
            r.push(self.peer_address[i]);
            i = i + 1;
            assert(self.peer_address@.subrange(0, i as int) =~= self.peer_address@.subrange(
                0,
                i - 1 as int,
            ).push(self.peer_address@[i - 1]));
        }
        r.push(self.channel_map);
        r.push(self.filter_policy);
        assert(self.peer_address@.subrange(0, 6) =~= self.peer_address@);
        assert(r@ =~= advertising_parameters_bytes(*self));
        r
    }
}

impl ScanParameters {
    pub fn to_bytes(&self) -> (r: Vec<u8>)
        ensures
            r@ == scan_parameters_bytes(*self),
    {
        let mut r: Vec<u8> = Vec::new();
        r.push(self.scan_type);
        r.push((self.interval % 256) as u8);
        r.push((self.interval / 256) as u8);
        r.push((self.window % 256) as u8);
        r.push((self.window / 256) as u8);
        r.push(self.own_address_type);
        r.push(self.filter_policy);
        assert(r@ =~= scan_parameters_bytes(*self));
        r
    }
}

/// Builds the advertising-data block for at most 31 bytes of data.
pub fn advertising_data_block(data: &[u8]) -> (r: Vec<u8>)
    requires
        data@.len() <= MAX_ADV_LEN,
    ensures
        r@ == advertising_data_bytes(data@),
{
    let mut r: Vec<u8> = Vec::new();
    r.push(data.len() as u8);
    let mut i: usize = 0;
    while i < data.len()
        invariant
            i <= data@.len() <= MAX_ADV_LEN,
            r@ == seq![data@.len() as u8] + data@.subrange(0, i as int),
        decreases data@.len() - i,
    {
        r.push(data[i]);
        i = i + 1;
        assert(data@.subrange(0, i as int) =~= data@.subrange(0, i - 1 as int).push(data@[i - 1]));
    }
    assert(data@.subrange(0, i as int) =~= data@);
    let mut j: usize = data.len();
    while j < MAX_ADV_LEN
        invariant
            data@.len() <= j <= MAX_ADV_LEN,
            r@ == seq![data@.len() as u8] + data@ + Seq::new(
                (j - data@.len()) as nat,
                |k: int| 0u8,
            ),
        decreases MAX_ADV_LEN - j,
    {
        r.push(0u8);
        j = j + 1;
        assert(Seq::new((j - data@.len()) as nat, |k: int| 0u8) =~= Seq::new(
            (j - 1 - data@.len()) as nat,
            |k: int| 0u8,
        ).push(0u8));
    }
    r
}

} // verus!
