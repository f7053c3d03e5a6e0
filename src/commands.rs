//! Encoders of the fire-and-forget and request packets of the small
//! subsystems: localization, commander, high-level commander, platform and
//! link service.
use vstd::prelude::*;
use crate::bytes::slice_range;
use crate::error::Error;
use crate::packet::{
    Packet,
    GENERIC_COMMANDER_PORT,
    HL_COMMANDER_PORT,
    LINK_PORT,
    LOCALIZATION_PORT,
    PLATFORM_PORT,
};

verus! {

const GENERIC_CHANNEL: u8 = 1;
const LPS_SHORT_LPP_PACKET: u8 = 2;
const EMERGENCY_STOP: u8 = 3;
const EMERGENCY_STOP_WATCHDOG: u8 = 4;
const LH_ANGLE_STREAM: u8 = 10;
const LH_PERSIST_DATA: u8 = 11;

const COMMAND_SET_GROUP_MASK: u8 = 0;
const COMMAND_STOP: u8 = 3;
const COMMAND_DEFINE_TRAJECTORY: u8 = 6;
const TRAJECTORY_LOCATION_MEM: u8 = 1;

/// Group mask that addresses every group.
pub const ALL_GROUPS: u8 = 0;
/// Trajectory stored as 4D polynomials.
pub const TRAJECTORY_TYPE_POLY4D: u8 = 0;

const PLATFORM_COMMAND: u8 = 0;
const VERSION_CHANNEL: u8 = 1;
const PLATFORM_SET_CONT_WAVE: u8 = 0;
const PLATFORM_REQUEST_ARMING: u8 = 1;
const PLATFORM_REQUEST_CRASH_RECOVERY: u8 = 2;
/// Version request: protocol version.
pub const VERSION_GET_PROTOCOL: u8 = 0;
/// Version request: firmware version text.
pub const VERSION_GET_FIRMWARE: u8 = 1;
/// Version request: device type name.
pub const VERSION_GET_DEVICE_TYPE: u8 = 2;

const ECHO_CHANNEL: u8 = 0;
const SOURCE_CHANNEL: u8 = 1;
const FILL_PATTERN: u8 = 0xAA;

/// The lowest protocol version that the library speaks.
pub const SUPPORTED_PROTOCOL_VERSION: u8 = 4;

/// The emergency stop: motors stop and the robot locks.
pub fn emergency_stop() -> (r: Packet)
    ensures
        r.wf(),
        r.port == 6 && r.channel == 1 && r.data@ == seq![3u8],
{
    Packet { port: LOCALIZATION_PORT, channel: GENERIC_CHANNEL, data: vec![EMERGENCY_STOP] }
}

/// The emergency-stop watchdog: once sent, it must be sent again at least
/// every second or the robot stops.
pub fn emergency_stop_watchdog() -> (r: Packet)
    ensures
        r.wf(),
        r.port == 6 && r.channel == 1 && r.data@ == seq![4u8],
{
    Packet { port: LOCALIZATION_PORT, channel: GENERIC_CHANNEL, data: vec![EMERGENCY_STOP_WATCHDOG] }
}

/// A short LPP packet for node `dest_id`; `InvalidArgument` where `data` is
/// longer than 28 bytes and the packet would not fit.
pub fn short_lpp_packet(dest_id: u8, data: &[u8]) -> (r: Result<Packet, Error>)
    ensures
        data@.len() <= 28 ==> (r matches Ok(p) && p.wf() && p.port == 6 && p.channel == 1
            && p.data@ == seq![2u8, dest_id] + data@),
        data@.len() > 28 ==> r == Err::<Packet, Error>(Error::InvalidArgument),
{
    if data.len() > 28 {
        return Err(Error::InvalidArgument);
    }
    let mut payload: Vec<u8> = vec![LPS_SHORT_LPP_PACKET, dest_id];
    let tail = slice_range(data, 0, data.len());
    let mut i: usize = 0;
    let ghost head = payload@;
    while i < tail.len()
        invariant
            i <= tail@.len(),
            tail@ == data@,
            tail@.len() <= 28,
            payload@ == head + tail@.subrange(0, i as int),
            head.len() == 2,
        decreases tail@.len() - i,
    {
        payload.push(tail[i]);
        i = i + 1;
        assert(payload@ =~= head + tail@.subrange(0, i as int));
    }
    assert(tail@.subrange(0, tail@.len() as int) =~= data@);
    Ok(Packet { port: LOCALIZATION_PORT, channel: GENERIC_CHANNEL, data: payload })
}

/// `2` to the power `k`.
pub open spec fn pow2_16(k: nat) -> nat
    decreases k,
{
    if k == 0 {
        1
    } else {
        2 * pow2_16((k - 1) as nat)
    }
}

/// The mask with bit `k` set for each base station `k < n` in `list`.
pub open spec fn mask_spec(list: Seq<u8>, n: nat) -> nat
    decreases n,
{
    if n == 0 {
        0
    } else {
        mask_spec(list, (n - 1) as nat) + if list.contains((n - 1) as u8) {
            pow2_16((n - 1) as nat)
        } else {
            0
        }
    }
}

proof fn lemma_mask_bound(list: Seq<u8>, n: nat)
    ensures
        mask_spec(list, n) < pow2_16(n),
    decreases n,
{
    if n > 0 {
        lemma_mask_bound(list, (n - 1) as nat);
    }
}

fn contains(list: &[u8], x: u8) -> (r: bool)
    ensures
        r == list@.contains(x),
{
    let mut i: usize = 0;
    while i < list.len()
        invariant
            i <= list@.len(),
            forall|k: int| 0 <= k < i ==> list@[k] != x,
        decreases list@.len() - i,
    {
        if list[i] == x {
            return true;
        }
        i = i + 1;
    }
    false
}

fn station_mask(list: &[u8]) -> (r: u16)
    ensures
        r as nat == mask_spec(list@, 16),
{
    let mut mask: u32 = 0;
    let mut p: u32 = 1;
    let mut k: u8 = 0;
    while k < 16
        invariant
            k <= 16,
            mask as nat == mask_spec(list@, k as nat),
            p as nat == pow2_16(k as nat),
            mask < p,
            p <= 0x1_0000,
        decreases 16 - k,
    {
        proof {
            lemma_mask_bound(list@, k as nat + 1);
            if k < 15 {
                assert(pow2_16(k as nat + 1) <= pow2_16(16)) by {
                    lemma_pow2_16_mono(k as nat + 1, 16);
                }
            }
            reveal_with_fuel(pow2_16, 17);
        }
        if contains(list, k) {
            mask = mask + p;
        }
        p = p * 2;
        k = k + 1;
    }
    mask as u16
}

proof fn lemma_pow2_16_mono(a: nat, b: nat)
    requires
        a <= b,
    ensures
        pow2_16(a) <= pow2_16(b),
    decreases b,
{
    if a < b {
        lemma_pow2_16_mono(a, (b - 1) as nat);
    }
}

/// Every base station id of `list` is at most 15.
pub open spec fn stations_ok(list: Seq<u8>) -> bool {
    forall|i: int| 0 <= i < list.len() ==> list[i] <= 15
}

fn all_stations_ok(list: &[u8]) -> (r: bool)
    ensures
        r == stations_ok(list@),
{
    let mut i: usize = 0;
    while i < list.len()
        invariant
            i <= list@.len(),
            forall|k: int| 0 <= k < i ==> list@[k] <= 15,
        decreases list@.len() - i,
    {
        if list[i] > 15 {
            return false;
        }
        i = i + 1;
    }
    true
}

/// The request to persist the lighthouse geometry of the base stations in
/// `geo_list` and the calibration of those in `calib_list`: two 16-bit
/// masks. `InvalidArgument` where an id is above 15.
pub fn lh_persist_request(geo_list: &[u8], calib_list: &[u8]) -> (r: Result<Packet, Error>)
    ensures
        !(stations_ok(geo_list@) && stations_ok(calib_list@)) ==> r == Err::<Packet, Error>(
            Error::InvalidArgument,
        ),
        stations_ok(geo_list@) && stations_ok(calib_list@) ==> (r matches Ok(p) && p.wf() && p.port
            == 6 && p.channel == 1 && p.data@ == seq![
            11u8,
            (mask_spec(geo_list@, 16) % 256) as u8,
            (mask_spec(geo_list@, 16) / 256) as u8,
            (mask_spec(calib_list@, 16) % 256) as u8,
            (mask_spec(calib_list@, 16) / 256) as u8,
        ]),
{
    if !all_stations_ok(geo_list) || !all_stations_ok(calib_list) {
        return Err(Error::InvalidArgument);
    }
    let g = station_mask(geo_list);
    let c = station_mask(calib_list);
    Ok(
        Packet {
            port: LOCALIZATION_PORT,
            channel: GENERIC_CHANNEL,
            data: vec![LH_PERSIST_DATA, (g % 256) as u8, (g / 256) as u8, (c % 256) as u8, (c / 256) as u8],
        },
    )
}

/// The confirmation of a persist request, where `data` is one: whether the
/// device stored the data.
pub fn persist_confirmation(data: &[u8]) -> (r: Option<bool>)
    ensures
        (data@.len() >= 2 && data@[0] == 11) ==> r == Some(data@[1] != 0),
        !(data@.len() >= 2 && data@[0] == 11) ==> r is None,
{
    if data.len() >= 2 && data[0] == LH_PERSIST_DATA {
        Some(data[1] != 0)
    } else {
        None
    }
}

/// What an inbound localization packet is.
#[derive(Clone, Copy, Debug, PartialEq, Eq, Structural)]
pub enum LocalizationFrame {
    /// A lighthouse angle-stream sample (tag 10).
    AngleStream,
    /// The confirmation of a persist request (tag 11).
    PersistConfirmation,
    /// Anything else: ignored.
    Other,
}

/// Routes an inbound localization packet by its tag: only channel 1 of the
/// localization port carries tagged frames.
pub fn localization_frame(pk: &Packet) -> (r: LocalizationFrame)
    ensures
        (pk.port == 6 && pk.channel == 1 && pk.data@.len() >= 1 && pk.data@[0] == 10) ==> r
            == LocalizationFrame::AngleStream,
        (pk.port == 6 && pk.channel == 1 && pk.data@.len() >= 1 && pk.data@[0] == 11) ==> r
            == LocalizationFrame::PersistConfirmation,
        !(pk.port == 6 && pk.channel == 1 && pk.data@.len() >= 1 && (pk.data@[0] == 10
            || pk.data@[0] == 11)) ==> r == LocalizationFrame::Other,
{
    if pk.port != LOCALIZATION_PORT || pk.channel != GENERIC_CHANNEL || pk.data.len() < 1 {
        return LocalizationFrame::Other;
    }
    if pk.data[0] == LH_ANGLE_STREAM {
        LocalizationFrame::AngleStream
    } else if pk.data[0] == LH_PERSIST_DATA {
        LocalizationFrame::PersistConfirmation
    } else {
        LocalizationFrame::Other
    }
}

/// The generic setpoint that stops the motors.
pub fn setpoint_stop() -> (r: Packet)
    ensures
        r.wf(),
        r.port == 7 && r.channel == 0 && r.data@ == seq![0u8],
{
    Packet { port: GENERIC_COMMANDER_PORT, channel: 0, data: vec![0u8] }
}

/// The meta command telling the device that setpoints stop, and how long
/// the last one stays valid.
pub fn notify_setpoint_stop(remain_valid_ms: u32) -> (r: Packet)
    ensures
        r.wf(),
        r.port == 7 && r.channel == 1 && r.data@ == seq![
            0u8,
            (remain_valid_ms % 256) as u8,
            ((remain_valid_ms / 256) % 256) as u8,
            ((remain_valid_ms / 65536) % 256) as u8,
            (remain_valid_ms / 16777216) as u8,
        ],
{
    let m = remain_valid_ms;
    Packet {
        port: GENERIC_COMMANDER_PORT,
        channel: 1,
        data: vec![0u8, (m % 256) as u8, ((m / 256) % 256) as u8, ((m / 65536) % 256) as u8, (m / 16777216) as u8],
    }
}

/// The high-level command that sets the robot's group mask.
pub fn hl_set_group_mask(group_mask: u8) -> (r: Packet)
    ensures
        r.wf(),
        r.port == 8 && r.channel == 0 && r.data@ == seq![0u8, group_mask],
{
    Packet { port: HL_COMMANDER_PORT, channel: 0, data: vec![COMMAND_SET_GROUP_MASK, group_mask] }
}

/// The high-level command that stops the groups of `group_mask` (all
/// groups for `None`).
pub fn hl_stop(group_mask: Option<u8>) -> (r: Packet)
    ensures
        r.wf(),
        r.port == 8 && r.channel == 0,
        r.data@ == seq![
            3u8,
            match group_mask {
                Some(g) => g,
                None => 0u8,
            },
        ],
{
    let g = match group_mask {
        Some(g) => g,
        None => ALL_GROUPS,
    };
    Packet { port: HL_COMMANDER_PORT, channel: 0, data: vec![COMMAND_STOP, g] }
}

/// The high-level command that defines trajectory `trajectory_id` of
/// `num_pieces` pieces at `memory_offset` of the trajectory memory.
pub fn hl_define_trajectory(trajectory_id: u8, memory_offset: u32, num_pieces: u8, trajectory_type: Option<u8>) -> (r: Packet)
    ensures
        r.wf(),
        r.port == 8 && r.channel == 0,
        r.data@ == seq![
            6u8,
            trajectory_id,
            1u8,
            match trajectory_type {
                Some(t) => t,
                None => 0u8,
            },
            (memory_offset % 256) as u8,
            ((memory_offset / 256) % 256) as u8,
            ((memory_offset / 65536) % 256) as u8,
            (memory_offset / 16777216) as u8,
            num_pieces,
        ],
{
    let t = match trajectory_type {
        Some(t) => t,
        None => TRAJECTORY_TYPE_POLY4D,
    };
    let m = memory_offset;
    Packet {
        port: HL_COMMANDER_PORT,
        channel: 0,
        data: vec![
            COMMAND_DEFINE_TRAJECTORY,
            trajectory_id,
            TRAJECTORY_LOCATION_MEM,
            t,
            (m % 256) as u8,
            ((m / 256) % 256) as u8,
            ((m / 65536) % 256) as u8,
            (m / 16777216) as u8,
            num_pieces,
        ],
    }
}

/// A version request (`VERSION_GET_PROTOCOL`, `VERSION_GET_FIRMWARE` or
/// `VERSION_GET_DEVICE_TYPE`).
pub fn version_request(what: u8) -> (r: Packet)
    ensures
        r.wf(),
        r.port == 13 && r.channel == 1 && r.data@ == seq![what],
{
    Packet { port: PLATFORM_PORT, channel: VERSION_CHANNEL, data: vec![what] }
}

/// The protocol version in a reply; `ProtocolError` where the reply is not
/// one.
pub fn parse_protocol_version(data: &[u8]) -> (r: Result<u8, Error>)
    ensures
        (data@.len() >= 2 && data@[0] == 0) ==> r == Ok::<u8, Error>(data@[1]),
        !(data@.len() >= 2 && data@[0] == 0) ==> r == Err::<u8, Error>(Error::ProtocolError),
{
    if data.len() >= 2 && data[0] == VERSION_GET_PROTOCOL {
        Ok(data[1])
    } else {
        Err(Error::ProtocolError)
    }
}

/// The text bytes of a reply to version request `what`; `ProtocolError`
/// where the reply answers another request.
pub fn parse_version_text(data: &[u8], what: u8) -> (r: Result<Vec<u8>, Error>)
    ensures
        (data@.len() >= 1 && data@[0] == what) ==> (r matches Ok(t) && t@ == data@.subrange(
            1,
            data@.len() as int,
        )),
        !(data@.len() >= 1 && data@[0] == what) ==> r == Err::<Vec<u8>, Error>(Error::ProtocolError),
{
    if data.len() >= 1 && data[0] == what {
        Ok(slice_range(data, 1, data.len()))
    } else {
        Err(Error::ProtocolError)
    }
}

/// Whether the device speaks protocol `version`: the supported version or
/// the one after; `ProtocolVersionNotSupported` otherwise.
pub fn check_protocol_version(version: u8) -> (r: Result<(), Error>)
    ensures
        (version == 4 || version == 5) ==> r is Ok,
        !(version == 4 || version == 5) ==> r == Err::<(), Error>(
            Error::ProtocolVersionNotSupported,
        ),
{
    if version == SUPPORTED_PROTOCOL_VERSION || version == SUPPORTED_PROTOCOL_VERSION + 1 {
        Ok(())
    } else {
        Err(Error::ProtocolVersionNotSupported)
    }
}

/// The command that switches the continuous-wave radio test on or off.
pub fn set_cont_wave(activate: bool) -> (r: Packet)
    ensures
        r.wf(),
        r.port == 13 && r.channel == 0 && r.data@ == seq![0u8, if activate { 1u8 } else { 0u8 }],
{
    let a: u8 = if activate { 1 } else { 0 };
    Packet { port: PLATFORM_PORT, channel: PLATFORM_COMMAND, data: vec![PLATFORM_SET_CONT_WAVE, a] }
}

/// The platform arming (`do_arm`) or disarming request.
pub fn platform_arming_request(do_arm: bool) -> (r: Packet)
    ensures
        r.wf(),
        r.port == 13 && r.channel == 0 && r.data@ == seq![1u8, if do_arm { 1u8 } else { 0u8 }],
{
    let a: u8 = if do_arm { 1 } else { 0 };
    Packet { port: PLATFORM_PORT, channel: PLATFORM_COMMAND, data: vec![PLATFORM_REQUEST_ARMING, a] }
}

/// The platform crash-recovery request.
pub fn platform_crash_recovery_request() -> (r: Packet)
    ensures
        r.wf(),
        r.port == 13 && r.channel == 0 && r.data@ == seq![2u8],
{
    Packet { port: PLATFORM_PORT, channel: PLATFORM_COMMAND, data: vec![PLATFORM_REQUEST_CRASH_RECOVERY] }
}

/// The ping: one byte on the echo channel, which the device sends back.
pub fn ping_request() -> (r: Packet)
    ensures
        r.wf(),
        r.port == 15 && r.channel == 0 && r.data@ == seq![1u8],
{
    Packet { port: LINK_PORT, channel: ECHO_CHANNEL, data: vec![0x01u8] }
}

/// Whether `reply` is the echo of `request`: same port, channel and bytes.
pub fn is_echo(request: &Packet, reply: &Packet) -> (r: bool)
    ensures
        r == (reply.port == request.port && reply.channel == request.channel && reply.data@
            == request.data@),
{
    reply.port == request.port && reply.channel == request.channel && crate::bytes::bytes_eq(
        reply.data.as_slice(),
        request.data.as_slice(),
    )
}

/// A full packet of the fill pattern on `channel` of the link service,
/// used by the bandwidth tests (0: echo, 2: sink).
pub fn bandwidth_packet(channel: u8) -> (r: Packet)
    requires
        channel < 4,
    ensures
        r.wf(),
        r.port == 15 && r.channel == channel && r.data@.len() == 30,
        forall|i: int| 0 <= i < 30 ==> r.data@[i] == 0xAA,
{
    let mut data: Vec<u8> = Vec::new();
    let mut i: usize = 0;
    while i < 30
        invariant
            i <= 30,
            data@.len() == i,
            forall|k: int| 0 <= k < i ==> data@[k] == 0xAA,
        decreases 30 - i,
    {
        data.push(FILL_PATTERN);
        i = i + 1;
    }
    Packet { port: LINK_PORT, channel, data }
}

/// The request for one packet of the source channel.
pub fn source_request() -> (r: Packet)
    ensures
        r.wf(),
        r.port == 15 && r.channel == 1 && r.data@ == seq![0u8],
{
    Packet { port: LINK_PORT, channel: SOURCE_CHANNEL, data: vec![0u8] }
}

/// The end-of-test echo of the uplink bandwidth test.
pub fn sink_end_echo() -> (r: Packet)
    ensures
        r.wf(),
        r.port == 15 && r.channel == 0 && r.data@ == seq![0u8],
{
    Packet { port: LINK_PORT, channel: ECHO_CHANNEL, data: vec![0u8] }
}

/// The channel of the link service's sink, for `bandwidth_packet`.
pub const SINK_CHANNEL: u8 = 2;

/// Bytes per second from `bytes` moved in `elapsed_ms` milliseconds;
/// `None` for no elapsed time.
pub fn bytes_per_second(bytes: u64, elapsed_ms: u64) -> (r: Option<u64>)
    requires
        bytes <= 0xFFFF_FFFF_FFFF,
    ensures
        elapsed_ms == 0 ==> r is None,
        elapsed_ms > 0 ==> r == Some(((bytes as int * 1000) / elapsed_ms as int) as u64),
{
    if elapsed_ms == 0 {
        None
    } else {
        Some(bytes * 1000 / elapsed_ms)
    }
}

/// One field of a command payload: a byte, a little-endian 16-bit number, or
/// a little-endian 32-bit word (the bit pattern of a float, for instance).
#[derive(Clone, Copy, Debug, PartialEq, Eq, Structural)]
pub enum Field {
    Byte(u8),
    Half(u16),
    Word(u32),
}

/// The bytes of one field.
pub open spec fn field_bytes(f: Field) -> Seq<u8> {
    match f {
        Field::Byte(b) => seq![b],
        Field::Half(h) => seq![(h % 256) as u8, (h / 256) as u8],
        Field::Word(w) => crate::memory_views::u32_bytes(w),
    }
}

/// The bytes of the fields, one after the other.
pub open spec fn fields_bytes(fs: Seq<Field>) -> Seq<u8>
    decreases fs.len(),
{
    if fs.len() == 0 {
        Seq::empty()
    } else {
        fields_bytes(fs.drop_last()) + field_bytes(fs.last())
    }
}

/// A packet on `port` and `channel` whose payload is the fields in order.
/// `InvalidArgument` where port or channel is out of range or the payload
/// would be longer than 30 bytes.
pub fn field_packet(port: u8, channel: u8, fields: &[Field]) -> (r: Result<Packet, Error>)
    ensures
        (port < 16 && channel < 4 && fields_bytes(fields@).len() <= 30) ==> (r matches Ok(p) && p.wf()
            && p.port == port && p.channel == channel && p.data@ == fields_bytes(fields@)),
        !(port < 16 && channel < 4 && fields_bytes(fields@).len() <= 30) ==> r == Err::<Packet, Error>(
            Error::InvalidArgument,
        ),
{
    let mut data: Vec<u8> = Vec::new();
    let mut i: usize = 0;
    assert(fields@.subrange(0, 0) =~= Seq::<Field>::empty());
    while i < fields.len()
        invariant
            i <= fields@.len(),
            data@ == fields_bytes(fields@.subrange(0, i as int)),
        decreases fields@.len() - i,
    {
        let ghost before = data@;
        match fields[i] {
            Field::Byte(b) => {
                data.push(b);
            },
            Field::Half(h) => {
                data.push((h % 256) as u8);
                data.push((h / 256) as u8);
            },
            Field::Word(w) => {
                data.push((w % 256) as u8);
                data.push(((w / 256) % 256) as u8);
                data.push(((w / 65536) % 256) as u8);
                data.push((w / 16777216) as u8);
            },
        }
        proof {
            let sub = fields@.subrange(0, i + 1);
            assert(sub.drop_last() =~= fields@.subrange(0, i as int));
            assert(data@ =~= before + field_bytes(fields@[i as int]));
        }
        i = i + 1;
    }
    assert(fields@.subrange(0, fields@.len() as int) =~= fields@);
    Packet::new(port, channel, data)
}

} // verus!
