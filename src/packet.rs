//! Packet framing: a port, a channel and a short payload.
use vstd::prelude::*;
use crate::error::Error;

verus! {

/// Port of the console.
pub const CONSOLE_PORT: u8 = 0;
/// Port of the parameter subsystem.
pub const PARAM_PORT: u8 = 2;
/// Port of the legacy roll/pitch/yaw-rate/thrust commander.
pub const COMMANDER_PORT: u8 = 3;
/// Port of the memory subsystem.
pub const MEMORY_PORT: u8 = 4;
/// Port of the log subsystem.
pub const LOG_PORT: u8 = 5;
/// Port of the localization subsystem.
pub const LOCALIZATION_PORT: u8 = 6;
/// Port of the generic setpoint commander.
pub const GENERIC_COMMANDER_PORT: u8 = 7;
/// Port of the high-level commander.
pub const HL_COMMANDER_PORT: u8 = 8;
/// Port of the platform subsystem.
pub const PLATFORM_PORT: u8 = 13;
/// Port of the supervisor.
pub const SUPERVISOR_PORT: u8 = 14;
/// Port of the link service.
pub const LINK_PORT: u8 = 15;

/// Number of ports.
pub const PORT_COUNT: u8 = 16;
/// Number of channels of a port.
pub const CHANNEL_COUNT: u8 = 4;
/// Largest payload of a packet, in bytes.
pub const MAX_PAYLOAD: usize = 30;
/// Largest payload of an app-channel packet, in bytes.
pub const APPCHANNEL_MTU: usize = 31;

/// A packet: a port in 0..16, a channel in 0..4 and at most 30 bytes.
#[derive(Clone, Debug, PartialEq, Eq)]
pub struct Packet {
    pub port: u8,
    pub channel: u8,
    pub data: Vec<u8>,
}

impl Packet {
    /// The packet fits the framing: port, channel and payload are in range.
    pub open spec fn wf(&self) -> bool {
        self.port < 16 && self.channel < 4 && self.data@.len() <= 30
    }

    /// A packet on `port` and `channel` holding `data`; `InvalidArgument` where
    /// one of them is out of range.
    pub fn new(port: u8, channel: u8, data: Vec<u8>) -> (r: Result<Packet, Error>)
        ensures
            (port < 16 && channel < 4 && data@.len() <= 30) ==> (r matches Ok(p) && p.port
                == port && p.channel == channel && p.data@ == data@),
            !(port < 16 && channel < 4 && data@.len() <= 30) ==> r == Err::<Packet, Error>(
                Error::InvalidArgument,
            ),
            r matches Ok(p) ==> p.wf(),
    {
        if port < PORT_COUNT && channel < CHANNEL_COUNT && data.len() <= MAX_PAYLOAD {
            Ok(Packet { port, channel, data })
        } else {
            Err(Error::InvalidArgument)
        }
    }

    /// The port of the packet.
    pub fn get_port(&self) -> (r: u8)
        ensures
            r == self.port,
    {
        self.port
    }

    /// The channel of the packet.
    pub fn get_channel(&self) -> (r: u8)
        ensures
            r == self.channel,
    {
        self.channel
    }

    /// The payload of the packet.
    pub fn get_data(&self) -> (r: &[u8])
        ensures
            r@ == self.data@,
    {
        self.data.as_slice()
    }

    /// The packet is on `port` and `channel` and its payload starts with
    /// `prefix`: the test that pairs a response with its request.
    pub fn matches(&self, port: u8, channel: u8, prefix: &[u8]) -> (r: bool)
        ensures
            r == (self.port == port && self.channel == channel && is_prefix(prefix@, self.data@)),
    {
        if self.port != port || self.channel != channel || prefix.len() > self.data.len() {
            return false;
        }
        let mut i: usize = 0;
        while i < prefix.len()
            invariant
                i <= prefix@.len(),
                prefix@.len() <= self.data@.len(),
                forall|j: int| 0 <= j < i ==> prefix@[j] == self.data@[j],
            decreases prefix@.len() - i,
        {
            if prefix[i] != self.data[i] {
                return false;
            }
            i = i + 1;
        }
        assert(self.data@.subrange(0, prefix@.len() as int) =~= prefix@);
        true
    }
}

/// `p` is a prefix of `s`.
pub open spec fn is_prefix(p: Seq<u8>, s: Seq<u8>) -> bool {
    p.len() <= s.len() && s.subrange(0, p.len() as int) == p
}

/// Where the channel dispatcher sends a packet of channel `channel`: to the
/// receiver of that index, or nowhere for a channel of 4 or more.
pub fn channel_route(channel: u8) -> (r: Option<usize>)
    ensures
        channel < 4 ==> r == Some(channel as usize),
        channel >= 4 ==> r is None,
{
    if channel < CHANNEL_COUNT {
        Some(channel as usize)
    } else {
        None
    }
}

/// The ports for which a subsystem has registered a receiver.
pub struct PortRegistry {
    registered: Vec<bool>,
}

impl View for PortRegistry {
    type V = Set<u8>;

    closed spec fn view(&self) -> Set<u8> {
        Set::new(|p: u8| p < 16 && self.registered@[p as int])
    }
}

impl PortRegistry {
    /// The registry is well formed.
    pub closed spec fn wf(&self) -> bool {
        self.registered@.len() == 16
    }

    /// A registry with no port registered.
    pub fn new() -> (r: PortRegistry)
        ensures
            r.wf(),
            r@ == Set::<u8>::empty(),
    {
        let mut registered: Vec<bool> = Vec::new();
        let mut i: usize = 0;
        while i < 16
            invariant
                i <= 16,
                registered@.len() == i,
                forall|j: int| 0 <= j < i ==> !registered@[j],
            decreases 16 - i,
        {
            registered.push(false);
            i = i + 1;
        }
        let r = PortRegistry { registered };
        assert(r@ =~= Set::<u8>::empty());
        r
    }

    /// Registers `port`. Returns `false`, and changes nothing, where the port
    /// is out of range or already registered: a port has one receiver.
    pub fn register(&mut self, port: u8) -> (r: bool)
        requires
            old(self).wf(),
        ensures
            final(self).wf(),
            r == (port < 16 && !old(self)@.contains(port)),
            r ==> final(self)@ == old(self)@.insert(port),
            !r ==> final(self)@ == old(self)@,
    {
        if port >= PORT_COUNT || self.registered[port as usize] {
            return false;
        }
        self.registered.set(port as usize, true);
        assert(self@ =~= old(self)@.insert(port));
        true
    }

    /// Whether an inbound packet on `port` is forwarded: only to a registered
    /// port; the others are dropped.
    pub fn routes(&self, port: u8) -> (r: bool)
        requires
            self.wf(),
        ensures
            r == self@.contains(port),
    {
        port < PORT_COUNT && self.registered[port as usize]
    }
}

/// A payload for the app channel, at most 31 bytes long.
#[derive(Clone, Debug)]
pub struct AppChannelPacket {
    data: Vec<u8>,
}

impl View for AppChannelPacket {
    type V = Seq<u8>;

    closed spec fn view(&self) -> Seq<u8> {
        self.data@
    }
}

impl AppChannelPacket {
    /// The payload is no longer than the MTU.
    pub closed spec fn wf(&self) -> bool {
        self.data@.len() <= 31
    }

    /// An app-channel packet holding `data`, or `AppchannelPacketTooLarge`
    /// where it is longer than the MTU.
    pub fn try_from_vec(data: Vec<u8>) -> (r: Result<AppChannelPacket, Error>)
        ensures
            data@.len() <= 31 ==> (r matches Ok(p) && p@ == data@ && p.wf()),
            data@.len() > 31 ==> r == Err::<AppChannelPacket, Error>(
                Error::AppchannelPacketTooLarge,
            ),
    {
        if data.len() <= APPCHANNEL_MTU {
            Ok(AppChannelPacket { data })
        } else {
            Err(Error::AppchannelPacketTooLarge)
        }
    }

    /// The app-channel payload carried by an inbound packet.
    pub fn from_packet(p: &Packet) -> (r: AppChannelPacket)
        requires
            p.wf(),
        ensures
            r@ == p.data@,
            r.wf(),
    {
        AppChannelPacket { data: crate::bytes::slice_range(p.data.as_slice(), 0, p.data.len()) }
    }

    /// The outbound packet on the platform's app channel (port 13, channel
    /// 2). `InvalidArgument` for a 31-byte payload, which the framing's
    /// 30-byte limit does not let out.
    pub fn to_packet(&self) -> (r: Result<Packet, Error>)
        ensures
            self@.len() <= 30 ==> (r matches Ok(p) && p.wf() && p.port == 13 && p.channel == 2
                && p.data@ == self@),
            self@.len() > 30 ==> r == Err::<Packet, Error>(Error::InvalidArgument),
    {
        let data = crate::bytes::slice_range(self.data.as_slice(), 0, self.data.len());
        Packet::new(13, 2, data)
    }

    /// The payload bytes.
    pub fn into_vec(self) -> (r: Vec<u8>)
        ensures
            r@ == self@,
    {
        self.data
    }

    /// The payload bytes.
    pub fn as_slice(&self) -> (r: &[u8])
        ensures
            r@ == self@,
    {
        self.data.as_slice()
    }
}

/// Every app-channel packet that the library accepts is at most 31 bytes
/// long, and every longer payload is refused.
pub proof fn lemma_appchannel_bound(p: AppChannelPacket)
    requires
        p.wf(),
    ensures
        p@.len() <= 31,
{
}

} // verus!
