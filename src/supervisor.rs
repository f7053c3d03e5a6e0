//! Supervisor state: the decoded bitfield and the packets that fetch it.
use vstd::prelude::*;
use crate::packet::{Packet, SUPERVISOR_PORT};

verus! {

const SUPERVISOR_CH_INFO: u8 = 0;
const SUPERVISOR_CH_COMMAND: u8 = 1;
const CMD_GET_STATE_BITFIELD: u8 = 0x0C;
const CMD_BITFIELD_REPLY: u8 = 0x8C;
const CMD_ARM_SYSTEM: u8 = 0x01;
const CMD_RECOVER_SYSTEM: u8 = 0x02;

/// How long a fetched bitfield is served from the cache, in milliseconds.
pub const CACHE_TIMEOUT_MS: u64 = 100;

/// Bit `k` of `raw` is set.
pub open spec fn flag(raw: u16, k: u16) -> bool {
    (raw >> k) & 1u16 == 1u16
}

/// The name of the state that bit `k` stands for.
pub open spec fn state_name(k: int) -> Seq<char> {
    if k == 0 {
        "Can be armed"@
    } else if k == 1 {
        "Is armed"@
    } else if k == 2 {
        "Is auto armed"@
    } else if k == 3 {
        "Can fly"@
    } else if k == 4 {
        "Is flying"@
    } else if k == 5 {
        "Is tumbled"@
    } else if k == 6 {
        "Is locked"@
    } else if k == 7 {
        "Is crashed"@
    } else if k == 8 {
        "HL control active"@
    } else if k == 9 {
        "HL trajectory finished"@
    } else {
        "HL control disabled"@
    }
}

/// Names of the states among bits `0..n` that are set in `raw`, in bit order.
pub open spec fn active_names(raw: u16, n: int) -> Seq<Seq<char>>
    decreases n,
{
    if n <= 0 {
        Seq::empty()
    } else if flag(raw, (n - 1) as u16) {
        active_names(raw, n - 1).push(state_name(n - 1))
    } else {
        active_names(raw, n - 1)
    }
}

/// The decoded supervisor bitfield.
#[derive(Clone, Copy, Debug, PartialEq, Eq, Structural)]
pub struct SupervisorInfo {
    /// Raw bitfield value.
    pub raw: u16,
}

fn bit(raw: u16, k: u16) -> (r: bool)
    requires
        k < 16,
    ensures
        r == flag(raw, k),
{
    (raw >> k) & 1 == 1
}

impl SupervisorInfo {
    /// The state held in `bits`.
    pub fn from_bits(bits: u16) -> (r: Self)
        ensures
            r.raw == bits,
    {
        Self { raw: bits }
    }

    /// The system can be armed and accepts an arming command.
    pub fn can_be_armed(&self) -> (r: bool)
        ensures
            r == flag(self.raw, 0),
    {
        bit(self.raw, 0)
    }

    /// The system is armed.
    pub fn is_armed(&self) -> (r: bool)
        ensures
            r == flag(self.raw, 1),
    {
        bit(self.raw, 1)
    }

    /// The system arms itself.
    pub fn is_auto_armed(&self) -> (r: bool)
        ensures
            r == flag(self.raw, 2),
    {
        bit(self.raw, 2)
    }

    /// The robot is ready to fly.
    pub fn can_fly(&self) -> (r: bool)
        ensures
            r == flag(self.raw, 3),
    {
        bit(self.raw, 3)
    }

    /// The robot is flying.
    pub fn is_flying(&self) -> (r: bool)
        ensures
            r == flag(self.raw, 4),
    {
        bit(self.raw, 4)
    }

    /// The robot is upside down.
    pub fn is_tumbled(&self) -> (r: bool)
        ensures
            r == flag(self.raw, 5),
    {
        bit(self.raw, 5)
    }

    /// The robot is locked and must be restarted.
    pub fn is_locked(&self) -> (r: bool)
        ensures
            r == flag(self.raw, 6),
    {
        bit(self.raw, 6)
    }

    /// The robot has crashed.
    pub fn is_crashed(&self) -> (r: bool)
        ensures
            r == flag(self.raw, 7),
    {
        bit(self.raw, 7)
    }

    /// The high-level commander is flying the robot.
    pub fn hl_control_active(&self) -> (r: bool)
        ensures
            r == flag(self.raw, 8),
    {
        bit(self.raw, 8)
    }

    /// The high-level commander's trajectory has finished.
    pub fn hl_traj_finished(&self) -> (r: bool)
        ensures
            r == flag(self.raw, 9),
    {
        bit(self.raw, 9)
    }

    /// The high-level commander is disabled.
    pub fn hl_control_disabled(&self) -> (r: bool)
        ensures
            r == flag(self.raw, 10),
    {
        bit(self.raw, 10)
    }

    /// Names of all the states that are set, in bit order.
    pub fn active_states(&self) -> (r: Vec<&'static str>)
        ensures
            r@.len() == active_names(self.raw, 11).len(),
            forall|i: int| 0 <= i < r@.len() ==> r@[i]@ == active_names(self.raw, 11)[i],
    {
        let names: [&'static str; 11] = [
            "Can be armed",
            "Is armed",
            "Is auto armed",
            "Can fly",
            "Is flying",
            "Is tumbled",
            "Is locked",
            "Is crashed",
            "HL control active",
            "HL trajectory finished",
            "HL control disabled",
        ];
        proof {
            reveal_strlit("Can be armed");
            reveal_strlit("Is armed");
            reveal_strlit("Is auto armed");
            reveal_strlit("Can fly");
            reveal_strlit("Is flying");
            reveal_strlit("Is tumbled");
            reveal_strlit("Is locked");
            reveal_strlit("Is crashed");
            reveal_strlit("HL control active");
            reveal_strlit("HL trajectory finished");
            reveal_strlit("HL control disabled");
            assert forall|k: int| 0 <= k < 11 implies names@[k]@ == state_name(k) by {}
        }
        let mut out: Vec<&'static str> = Vec::new();
        let mut k: u16 = 0;
        while k < 11
            invariant
                k <= 11,
                forall|j: int| 0 <= j < 11 ==> names@[j]@ == state_name(j),
                out@.len() == active_names(self.raw, k as int).len(),
                forall|i: int| 0 <= i < out@.len() ==> out@[i]@ == active_names(self.raw, k as int)[i],
            decreases 11 - k,
        {
            if bit(self.raw, k) {
                out.push(names[k as usize]);
            }
            k = k + 1;
        }
        out
    }
}

/// The request for the state bitfield.
pub fn bitfield_request() -> (r: Packet)
    ensures
        r.wf(),
        r.port == 14 && r.channel == 0 && r.data@ == seq![0x0Cu8],
{
    Packet { port: SUPERVISOR_PORT, channel: SUPERVISOR_CH_INFO, data: vec![CMD_GET_STATE_BITFIELD] }
}

/// The bitfield that an inbound packet carries, where it is a bitfield reply:
/// on the supervisor's info channel, at least three bytes, first byte the
/// command (with or without its reply bit).
pub fn bitfield_of_reply(pk: &Packet) -> (r: Option<u16>)
    ensures
        (pk.port == 14 && pk.channel == 0 && pk.data@.len() >= 3 && (pk.data@[0] == 0x0C
            || pk.data@[0] == 0x8C)) ==> r == Some((pk.data@[1] as int + 256 * pk.data@[2]) as u16),
        !(pk.port == 14 && pk.channel == 0 && pk.data@.len() >= 3 && (pk.data@[0] == 0x0C
            || pk.data@[0] == 0x8C)) ==> r is None,
{
    if pk.port != SUPERVISOR_PORT || pk.channel != SUPERVISOR_CH_INFO || pk.data.len() < 3 {
        return None;
    }
    let cmd = pk.data[0];
    if cmd != CMD_GET_STATE_BITFIELD && cmd != CMD_BITFIELD_REPLY {
        return None;
    }
    Some(pk.data[1] as u16 + 256 * pk.data[2] as u16)
}

/// The arming (`do_arm`) or disarming request.
pub fn arming_request(do_arm: bool) -> (r: Packet)
    ensures
        r.wf(),
        r.port == 14 && r.channel == 1 && r.data@ == seq![0x01u8, if do_arm { 1u8 } else { 0u8 }],
{
    let arg: u8 = if do_arm { 1 } else { 0 };
    Packet { port: SUPERVISOR_PORT, channel: SUPERVISOR_CH_COMMAND, data: vec![CMD_ARM_SYSTEM, arg] }
}

/// The crash-recovery request.
pub fn crash_recovery_request() -> (r: Packet)
    ensures
        r.wf(),
        r.port == 14 && r.channel == 1 && r.data@ == seq![0x02u8],
{
    Packet { port: SUPERVISOR_PORT, channel: SUPERVISOR_CH_COMMAND, data: vec![CMD_RECOVER_SYSTEM] }
}

/// The last bitfield fetched from the device, and when.
#[derive(Clone, Copy, Debug, PartialEq, Eq, Structural)]
pub struct BitfieldCache {
    pub bitfield: Option<u16>,
    pub fetched_at_ms: u64,
}

impl BitfieldCache {
    /// A cache that holds nothing.
    pub fn new() -> (r: Self)
        ensures
            r.bitfield is None,
    {
        BitfieldCache { bitfield: None, fetched_at_ms: 0 }
    }

    /// The cached state, where one was fetched less than the timeout before
    /// `now_ms`; `None` when the device must be asked.
    pub fn lookup(&self, now_ms: u64) -> (r: Option<SupervisorInfo>)
        ensures
            (self.bitfield is Some && now_ms >= self.fetched_at_ms && now_ms - self.fetched_at_ms
                < 100) ==> r == Some(SupervisorInfo { raw: self.bitfield->0 }),
            !(self.bitfield is Some && now_ms >= self.fetched_at_ms && now_ms - self.fetched_at_ms
                < 100) ==> r is None,
    {
        match self.bitfield {
            Some(b) => {
                if now_ms >= self.fetched_at_ms && now_ms - self.fetched_at_ms < CACHE_TIMEOUT_MS {
                    Some(SupervisorInfo::from_bits(b))
                } else {
                    None
                }
            },
            None => None,
        }
    }

    /// Records a bitfield fetched at `now_ms`.
    pub fn record(&mut self, bitfield: u16, now_ms: u64)
        ensures
            final(self).bitfield == Some(bitfield),
            final(self).fetched_at_ms == now_ms,
    {
        self.bitfield = Some(bitfield);
        self.fetched_at_ms = now_ms;
    }
}

} // verus!
