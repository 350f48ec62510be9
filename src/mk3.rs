//! The MK3 binary protocol: frame decoding with resynchronisation, and the
//! fixed request frames.
//!
//! A frame on the wire is `[length][0xff][command][data...][checksum]`, in all
//! `length + 2` bytes. Info frames carry `0x20` in place of the `0xff` marker,
//! followed by 14 payload bytes.
use crate::buffer::{buffer_advance, buffer_bytes, buffer_contents, buffer_extend};
use bytes::BytesMut;
use vstd::prelude::*;

verus! {

/// Length of a version frame, the only frame the decoder can synchronise on.
pub const VERSION_FRAME_LEN: usize = 9;

/// First byte of a version frame: its length field.
pub const VERSION_LENGTH_BYTE: u8 = 0x07;

/// Sum of the bytes, modulo 256.
pub open spec fn byte_sum(s: Seq<u8>) -> int
    decreases s.len(),
{
    if s.len() == 0 {
        0
    } else {
        (byte_sum(s.drop_last()) + s.last()) % 256
    }
}

/// Whether the additive checksum over `src` is zero modulo 256.
pub fn checksum_ok(src: &[u8]) -> (r: bool)
    ensures
        r == (byte_sum(src@) == 0),
{
    let mut sum: u8 = 0;
    let mut i: usize = 0;
    while i < src.len()
        invariant
            i <= src@.len(),
            sum == byte_sum(src@.take(i as int)),
        decreases src@.len() - i,
    {
        assert(src@.take(i as int + 1).drop_last() == src@.take(i as int));
        sum = sum.wrapping_add(src[i]);
        i = i + 1;
    }
    assert(src@.take(i as int) == src@);
    sum == 0
}

/// Indicator lamps of the inverter/charger; a lamp counts as active when it is
/// either on or blinking.
#[derive(Clone, Copy, Debug, PartialEq, Eq, Structural)]
pub struct LedStatus {
    pub mains: bool,
    pub absorption: bool,
    pub bulk: bool,
    pub float: bool,
    pub inverter: bool,
    pub overload: bool,
    pub low_battery: bool,
    pub temperature: bool,
}

/// DC side of the device, in the fixed-point units of the wire.
#[derive(Clone, Copy, Debug, PartialEq, Eq, Structural)]
pub struct DcMeasurement {
    /// Battery voltage in hundredths of a volt.
    pub voltage: u16,
    /// Inverter current in tenths of an ampere.
    pub inverter_current: u32,
    /// Inverter power in milliwatts (`voltage * inverter_current`).
    pub inverter_watts: u64,
    /// Charger current in tenths of an ampere.
    pub charger_current: u32,
    /// Charger power in milliwatts (`voltage * charger_current`).
    pub charger_watts: u64,
    /// Half-period tick count; the frequency is `10000 / inverter_period` Hz.
    pub inverter_period: u8,
}

/// Operating state reported in an AC info frame.
#[derive(Clone, Copy, Debug, PartialEq, Eq, Structural)]
pub enum AcState {
    Down,
    Startup,
    Off,
    Slave,
    InvertFull,
    InvertHalf,
    InvertAes,
    PowerAssist,
    Bypass,
    Charge,
    Unknown,
}

/// AC side of the device, in the fixed-point units of the wire.
#[derive(Clone, Copy, Debug, PartialEq, Eq, Structural)]
pub struct AcMeasurement {
    pub bf_factor: u8,
    pub inverter_factor: u8,
    pub state: AcState,
    /// Mains voltage in hundredths of a volt.
    pub mains_voltage: u16,
    /// Mains current in hundredths of an ampere.
    pub mains_current: u16,
    /// Mains power in units of 0.1 mW (`mains_voltage * mains_current`).
    pub mains_watts: u32,
    /// Inverter voltage in hundredths of a volt.
    pub inverter_voltage: u16,
    /// Inverter current in hundredths of an ampere.
    pub inverter_current: u16,
    /// Inverter power in units of 0.1 mW (`inverter_voltage * inverter_current`).
    pub inverter_watts: u32,
    /// Half-period tick count; the frequency is `10000 / mains_period` Hz.
    pub mains_period: u8,
}

/// A decoded MK3 frame.
#[derive(Clone, Copy, Debug, PartialEq, Eq, Structural)]
pub enum Frame {
    /// An info frame whose phase byte has no known meaning, or that is too short.
    Unknown,
    Version,
    LedStatus { led_status: LedStatus },
    Ac { ac: AcMeasurement },
    Dc { dc: DcMeasurement },
}

/// Requests that the host sends to poll the device.
#[derive(Clone, Copy, Debug, PartialEq, Eq, Structural)]
pub enum RequestFrame {
    Version,
    LedStatus,
    DcStatus,
    AcL1Status,
}

pub open spec fn led_status_of(active: u8) -> LedStatus {
    LedStatus {
        mains: active & 0x01 != 0,
        absorption: active & 0x02 != 0,
        bulk: active & 0x04 != 0,
        float: active & 0x08 != 0,
        inverter: active & 0x10 != 0,
        overload: active & 0x20 != 0,
        low_battery: active & 0x40 != 0,
        temperature: active & 0x80 != 0,
    }
}

pub open spec fn ac_state_of(b: u8) -> AcState {
    if b == 0 {
        AcState::Down
    } else if b == 1 {
        AcState::Startup
    } else if b == 2 {
        AcState::Off
    } else if b == 3 {
        AcState::Slave
    } else if b == 4 {
        AcState::InvertFull
    } else if b == 5 {
        AcState::InvertHalf
    } else if b == 6 {
        AcState::InvertAes
    } else if b == 7 {
        AcState::PowerAssist
    } else if b == 8 {
        AcState::Bypass
    } else if b == 9 {
        AcState::Charge
    } else {
        AcState::Unknown
    }
}

/// Little-endian value of two bytes.
pub open spec fn le16(lo: u8, hi: u8) -> int {
    lo + 256 * hi
}

/// Little-endian value of three bytes.
pub open spec fn le24(lo: u8, mid: u8, hi: u8) -> int {
    lo + 256 * mid + 65536 * hi
}

/// Meaning of the 14 payload bytes of an info frame.
pub open spec fn info_frame_of(d: Seq<u8>) -> Frame
    recommends
        d.len() == 14,
{
    if d[4] == 0x0c {
        let v = le16(d[5], d[6]);
        let ic = le24(d[7], d[8], d[9]);
        let cc = le24(d[10], d[11], d[12]);
        Frame::Dc {
            dc: DcMeasurement {
                voltage: v as u16,
                inverter_current: ic as u32,
                inverter_watts: (v * ic) as u64,
                charger_current: cc as u32,
                charger_watts: (v * cc) as u64,
                inverter_period: d[13],
            },
        }
    } else if 0x05 <= d[4] <= 0x0b {
        let mv = le16(d[5], d[6]);
        let mc = le16(d[7], d[8]);
        let iv = le16(d[9], d[10]);
        let ic = le16(d[11], d[12]);
        Frame::Ac {
            ac: AcMeasurement {
                bf_factor: d[0],
                inverter_factor: d[1],
                state: ac_state_of(d[3]),
                mains_voltage: mv as u16,
                mains_current: mc as u16,
                mains_watts: (mv * mc) as u32,
                inverter_voltage: iv as u16,
                inverter_current: ic as u16,
                inverter_watts: (iv * ic) as u32,
                mains_period: d[13],
            },
        }
    } else {
        Frame::Unknown
    }
}

/// Meaning of one complete frame `f` (its length byte included) in the
/// synchronised state. Frames with another command yield nothing.
pub open spec fn frame_of(f: Seq<u8>) -> Option<Frame> {
    if f.len() >= 3 && f[1] == 0xff && f[2] == 0x56 {
        Some(Frame::Version)
    } else if f.len() >= 5 && f[1] == 0xff && f[2] == 0x4c {
        Some(Frame::LedStatus { led_status: led_status_of(f[3] | f[4]) })
    } else if f.len() >= 2 && f[1] == 0x20 {
        if f.len() >= 16 {
            Some(info_frame_of(f.subrange(2, 16)))
        } else {
            Some(Frame::Unknown)
        }
    } else {
        None
    }
}

/// Whether a valid version frame starts at `i`: header `07 ff 56` and a zero
/// checksum over its nine bytes.
pub open spec fn version_frame_at(b: Seq<u8>, i: int) -> bool {
    &&& 0 <= i
    &&& i + 9 <= b.len()
    &&& b[i] == 0x07
    &&& b[i + 1] == 0xff
    &&& b[i + 2] == 0x56
    &&& byte_sum(b.subrange(i, i + 9)) == 0
}

/// The first index `k >= i`, `k >= 1`, holding the version length byte, or the
/// length of `b` when there is none.
pub open spec fn next_marker(b: Seq<u8>, i: nat) -> nat
    decreases b.len() - i,
{
    if i >= b.len() {
        b.len()
    } else if i >= 1 && b[i as int] == 0x07 {
        i
    } else {
        next_marker(b, i + 1)
    }
}

/// One decoding step on the buffered bytes `b`: the frame emitted, the number of
/// bytes consumed, and whether the decoder is synchronised afterwards.
pub open spec fn mk3_decode(synchronized: bool, b: Seq<u8>) -> (Option<Frame>, nat, bool) {
    if synchronized {
        if b.len() < 1 || b.len() < b[0] + 2 {
            (None, 0, true)
        } else {
            let n = (b[0] + 2) as nat;
            (frame_of(b.take(n as int)), n, true)
        }
    } else {
        if b.len() < 9 {
            (None, 0, false)
        } else if version_frame_at(b, 0) {
            (Some(Frame::Version), 9, true)
        } else {
            (None, next_marker(b, 0), false)
        }
    }
}

/// The bytes of a request frame, checksum included.
pub open spec fn request_bytes(item: RequestFrame) -> Seq<u8> {
    match item {
        RequestFrame::Version => seq![0x02u8, 0xff, 0x56, 0xa9],
        RequestFrame::LedStatus => seq![0x02u8, 0xff, 0x4c, 0xb3],
        RequestFrame::DcStatus => seq![0x03u8, 0xff, 0x46, 0x00, 0xb8],
        RequestFrame::AcL1Status => seq![0x03u8, 0xff, 0x46, 0x01, 0xb7],
    }
}

fn ac_state_from(b: u8) -> (r: AcState)
    ensures
        r == ac_state_of(b),
{
    match b {
        0 => AcState::Down,
        1 => AcState::Startup,
        2 => AcState::Off,
        3 => AcState::Slave,
        4 => AcState::InvertFull,
        5 => AcState::InvertHalf,
        6 => AcState::InvertAes,
        7 => AcState::PowerAssist,
        8 => AcState::Bypass,
        9 => AcState::Charge,
        _ => AcState::Unknown,
    }
}

fn word16(lo: u8, hi: u8) -> (r: u16)
    ensures
        r == le16(lo, hi),
{
    lo as u16 + 256 * (hi as u16)
}

fn word24(lo: u8, mid: u8, hi: u8) -> (r: u32)
    ensures
        r == le24(lo, mid, hi),
{
    lo as u32 + 256 * (mid as u32) + 65536 * (hi as u32)
}

/// Decodes the 14 payload bytes of an info frame.
pub fn decode_info_frame(d: &[u8]) -> (r: Frame)
    requires
        d@.len() == 14,
    ensures
        r == info_frame_of(d@),
{
    let phase_info = d[4];
    if phase_info == 0x0c {
        let voltage = word16(d[5], d[6]);
        let inverter_current = word24(d[7], d[8], d[9]);
        let charger_current = word24(d[10], d[11], d[12]);
        assert((voltage as int) * (inverter_current as int) <= 65535 * 16777215) by (nonlinear_arith)
            requires
                voltage <= 65535,
                inverter_current <= 16777215,
        ;
        assert((voltage as int) * (charger_current as int) <= 65535 * 16777215) by (nonlinear_arith)
            requires
                voltage <= 65535,
                charger_current <= 16777215,
        ;
        Frame::Dc {
            dc: DcMeasurement {
                voltage,
                inverter_current,
                inverter_watts: voltage as u64 * inverter_current as u64,
                charger_current,
                charger_watts: voltage as u64 * charger_current as u64,
                inverter_period: d[13],
            },
        }
    } else if phase_info >= 0x05 && phase_info <= 0x0b {
        let mains_voltage = word16(d[5], d[6]);
        let mains_current = word16(d[7], d[8]);
        let inverter_voltage = word16(d[9], d[10]);
        let inverter_current = word16(d[11], d[12]);
        assert((mains_voltage as int) * (mains_current as int) <= 65535 * 65535) by (nonlinear_arith)
            requires
                mains_voltage <= 65535,
                mains_current <= 65535,
        ;
        assert((inverter_voltage as int) * (inverter_current as int) <= 65535 * 65535)
            by (nonlinear_arith)
            requires
                inverter_voltage <= 65535,
                inverter_current <= 65535,
        ;
        Frame::Ac {
            ac: AcMeasurement {
                bf_factor: d[0],
                inverter_factor: d[1],
                state: ac_state_from(d[3]),
                mains_voltage,
                mains_current,
                mains_watts: mains_voltage as u32 * mains_current as u32,
                inverter_voltage,
                inverter_current,
                inverter_watts: inverter_voltage as u32 * inverter_current as u32,
                mains_period: d[13],
            },
        }
    } else {
        Frame::Unknown
    }
}


/// Meaning of a complete frame in the synchronised state.
fn decode_frame(f: &[u8]) -> (r: Option<Frame>)
    requires
        f@.len() >= 2,
    ensures
        r == frame_of(f@),
{
    if f.len() >= 3 && f[1] == 0xff && f[2] == 0x56 {
        Some(Frame::Version)
    } else if f.len() >= 5 && f[1] == 0xff && f[2] == 0x4c {
        let active = f[3] | f[4];
        Some(
            Frame::LedStatus {
                led_status: LedStatus {
                    mains: active & 0x01 != 0,
                    absorption: active & 0x02 != 0,
                    bulk: active & 0x04 != 0,
                    float: active & 0x08 != 0,
                    inverter: active & 0x10 != 0,
                    overload: active & 0x20 != 0,
                    low_battery: active & 0x40 != 0,
                    temperature: active & 0x80 != 0,
                },
            },
        )
    } else if f[1] == 0x20 {
        if f.len() >= 16 {
            let payload = slice_range(f, 2, 16);
            Some(decode_info_frame(payload))
        } else {
            Some(Frame::Unknown)
        }
    } else {
        None
    }
}

fn slice_range(s: &[u8], from: usize, to: usize) -> (r: &[u8])
    requires
        from <= to <= s@.len(),
    ensures
        r@ == s@.subrange(from as int, to as int),
{
    vstd::slice::slice_subrange(s, from, to)
}

/// The first index `k >= 1` holding the version length byte, or the length of
/// `b` when there is none.
fn find_next_marker(b: &[u8]) -> (r: usize)
    ensures
        r == next_marker(b@, 0),
{
    let mut i: usize = 0;
    while i < b.len()
        invariant
            i <= b@.len(),
            next_marker(b@, i as nat) == next_marker(b@, 0),
        decreases b@.len() - i,
    {
        if i >= 1 && b[i] == VERSION_LENGTH_BYTE {
            return i;
        }
        i = i + 1;
    }
    i
}

/// Synchronised: waits for a whole frame, then consumes it and yields what it
/// means.
pub fn decode_synchronized(b: &[u8]) -> (r: (Option<Frame>, usize))
    ensures
        (r.0, r.1 as nat, true) == mk3_decode(true, b@),
{
    if b.len() < 1 {
        return (None, 0);
    }
    let expected_len: usize = b[0] as usize + 2;
    if b.len() < expected_len {
        (None, 0)
    } else {
        let frame = decode_frame(slice_range(b, 0, expected_len));
        assert(b@.subrange(0, expected_len as int) == b@.take(expected_len as int));
        (frame, expected_len)
    }
}

/// Unsynchronised: waits for nine bytes; a valid version frame there
/// synchronises the decoder, anything else is dropped up to the next candidate
/// length byte.
pub fn decode_unsynchronized(b: &[u8]) -> (r: (Option<Frame>, usize, bool))
    ensures
        (r.0, r.1 as nat, r.2) == mk3_decode(false, b@),
{
    if b.len() < VERSION_FRAME_LEN {
        (None, 0, false)
    } else {
        let head = slice_range(b, 0, VERSION_FRAME_LEN);
        if b[0] == VERSION_LENGTH_BYTE && b[1] == 0xff && b[2] == 0x56 && checksum_ok(head) {
            (Some(Frame::Version), VERSION_FRAME_LEN, true)
        } else {
            (None, find_next_marker(b), false)
        }
    }
}

/// One decoding step on the bytes `b`: the frame emitted, the number of bytes
/// consumed, and whether the decoder is synchronised afterwards.
pub fn decode_step(synchronized: bool, b: &[u8]) -> (r: (Option<Frame>, usize, bool))
    ensures
        (r.0, r.1 as nat, r.2) == mk3_decode(synchronized, b@),
{
    if synchronized {
        let (frame, consumed) = decode_synchronized(b);
        (frame, consumed, true)
    } else {
        decode_unsynchronized(b)
    }
}

/// The requests that the host sends after receiving `frame`: each version
/// frame starts another poll of the DC and then the AC measurements.
pub open spec fn poll_after(frame: Frame) -> Seq<RequestFrame> {
    if frame == Frame::Version {
        seq![RequestFrame::DcStatus, RequestFrame::AcL1Status]
    } else {
        Seq::empty()
    }
}

/// The requests to send after receiving `frame`.
pub fn poll_requests(frame: &Frame) -> (r: Vec<RequestFrame>)
    ensures
        r@ == poll_after(*frame),
{
    let mut r: Vec<RequestFrame> = Vec::new();
    if let Frame::Version = frame {
        r.push(RequestFrame::DcStatus);
        r.push(RequestFrame::AcL1Status);
    }
    proof {
        if *frame == Frame::Version {
            assert(r@ =~= seq![RequestFrame::DcStatus, RequestFrame::AcL1Status]);
        } else {
            assert(r@ =~= Seq::<RequestFrame>::empty());
        }
    }
    r
}

/// Name of an AC operating state, as it is published.
pub open spec fn ac_state_name(s: AcState) -> &'static str {
    match s {
        AcState::Down => "down",
        AcState::Startup => "startup",
        AcState::Off => "off",
        AcState::Slave => "slave",
        AcState::InvertFull => "invert-full",
        AcState::InvertHalf => "invert-half",
        AcState::InvertAes => "invert-aes",
        AcState::PowerAssist => "power-assist",
        AcState::Bypass => "bypass",
        AcState::Charge => "charge",
        AcState::Unknown => "unknown",
    }
}

impl AcState {
    /// The name under which the state is published.
    pub fn name(&self) -> (r: &'static str)
        ensures
            r == ac_state_name(*self),
    {
        match self {
            AcState::Down => "down",
            AcState::Startup => "startup",
            AcState::Off => "off",
            AcState::Slave => "slave",
            AcState::InvertFull => "invert-full",
            AcState::InvertHalf => "invert-half",
            AcState::InvertAes => "invert-aes",
            AcState::PowerAssist => "power-assist",
            AcState::Bypass => "bypass",
            AcState::Charge => "charge",
            AcState::Unknown => "unknown",
        }
    }
}

/// Codec state of an MK3 link: whether the decoder has found a frame boundary.
pub struct VeMk3Codec {
    synchronized: bool,
}

impl VeMk3Codec {
    /// Whether the decoder is synchronised on frame boundaries.
    pub closed spec fn synced(&self) -> bool {
        self.synchronized
    }

    /// A codec that still has to synchronise.
    pub fn new() -> (r: Self)
        ensures
            !r.synced(),
    {
        VeMk3Codec { synchronized: false }
    }

    pub fn is_synchronized(&self) -> (r: bool)
        ensures
            r == self.synced(),
    {
        self.synchronized
    }

    /// Decodes at most one frame from the front of `src` and drops the bytes
    /// that it has dealt with.
    ///
    /// Unsynchronised, it waits for nine bytes and synchronises on a version
    /// frame; otherwise it drops bytes up to the next candidate length byte.
    /// Synchronised, it waits for a whole frame and always drops it; only
    /// version frames are checksummed.
    pub fn decode(&mut self, src: &mut BytesMut) -> (r: Option<Frame>)
        ensures
            ({
                let (frame, consumed, synced) = mk3_decode(old(self).synced(), buffer_bytes(*old(src)));
                &&& r == frame
                &&& buffer_bytes(*final(src)) == buffer_bytes(*old(src)).skip(consumed as int)
                &&& final(self).synced() == synced
            }),
    {
        let data = buffer_contents(src);
        let (frame, consumed, synced) = decode_step(self.synchronized, data.as_slice());
        proof {
            if !self.synchronized && consumed != 9 && data@.len() >= 9 {
                lemma_next_marker_bounded(data@, 0);
            }
        }
        buffer_advance(src, consumed);
        self.synchronized = synced;
        frame
    }

    /// Appends the bytes of a request frame to `dst`.
    pub fn encode(&mut self, item: RequestFrame, dst: &mut BytesMut)
        ensures
            buffer_bytes(*final(dst)) == buffer_bytes(*old(dst)) + request_bytes(item),
            final(self).synced() == old(self).synced(),
    {
        let request: Vec<u8> = match item {
            RequestFrame::Version => vec![0x02u8, 0xff, 0x56, 0xa9],
            RequestFrame::LedStatus => vec![0x02u8, 0xff, 0x4c, 0xb3],
            RequestFrame::DcStatus => vec![0x03u8, 0xff, 0x46, 0x00, 0xb8],
            RequestFrame::AcL1Status => vec![0x03u8, 0xff, 0x46, 0x01, 0xb7],
        };
        assert(request@ == request_bytes(item));
        buffer_extend(dst, request.as_slice());
    }
}

impl Default for VeMk3Codec {
    fn default() -> (r: Self)
        ensures
            !r.synced(),
    {
        VeMk3Codec::new()
    }
}

proof fn lemma_next_marker_bounded(b: Seq<u8>, i: nat)
    ensures
        i <= b.len() ==> i <= next_marker(b, i) <= b.len(),
        next_marker(b, i) <= b.len() || i > b.len(),
    decreases b.len() - i,
{
    if i < b.len() {
        lemma_next_marker_bounded(b, i + 1);
    }
}


proof fn lemma_next_marker_skips(b: Seq<u8>, i: nat)
    requires
        i <= b.len(),
    ensures
        forall|k: int| i <= k < next_marker(b, i) ==> k == 0 || b[k] != 0x07,
        next_marker(b, i) < b.len() ==> b[next_marker(b, i) as int] == 0x07 && next_marker(b, i) >= 1,
    decreases b.len() - i,
{
    if i < b.len() && !(i >= 1 && b[i as int] == 0x07) {
        lemma_next_marker_skips(b, i + 1);
    }
}

/// Resynchronisation: unsynchronised, with at least nine bytes buffered that do
/// not start with a valid version frame, the decoder emits nothing, stays
/// unsynchronised, and drops exactly the bytes before the next candidate length
/// byte after the first. No valid version frame starts in what it drops.
pub proof fn lemma_resync_drops_no_version_frame(b: Seq<u8>)
    requires
        b.len() >= 9,
        !version_frame_at(b, 0),
    ensures
        ({
            let (frame, consumed, synced) = mk3_decode(false, b);
            &&& frame is None
            &&& !synced
            &&& 1 <= consumed <= b.len()
            &&& consumed < b.len() ==> b[consumed as int] == 0x07
            &&& forall|i: int| 1 <= i < consumed ==> b[i] != 0x07
            &&& forall|i: int| 0 <= i < consumed ==> !version_frame_at(b, i)
        }),
{
    lemma_next_marker_bounded(b, 0);
    lemma_next_marker_skips(b, 0);
    if b[1] == 0x07 {
        assert(next_marker(b, 0) == next_marker(b, 1));
    }
    assert(next_marker(b, 0) >= 1) by {
        assert(next_marker(b, 0) == next_marker(b, 1));
        lemma_next_marker_bounded(b, 1);
    }
}

/// Partial buffers: while a frame that the decoder emits is only partly
/// buffered, the decoder emits nothing, consumes nothing and keeps its state;
/// and bytes that follow a frame do not change what is decoded from it.
pub proof fn lemma_mk3_partial_frame(synchronized: bool, b: Seq<u8>, m: nat, extra: Seq<u8>)
    requires
        mk3_decode(synchronized, b).0 is Some,
        m < mk3_decode(synchronized, b).1,
    ensures
        mk3_decode(synchronized, b.take(m as int)) == (None::<Frame>, 0nat, synchronized),
        mk3_decode(synchronized, b + extra) == mk3_decode(synchronized, b),
{
    let n = mk3_decode(synchronized, b).1;
    assert(n <= b.len());
    let c = b + extra;
    if synchronized {
        assert(c.take(n as int) == b.take(n as int));
    } else {
        assert(c.subrange(0, 9) == b.subrange(0, 9));
    }
}

} // verus!
