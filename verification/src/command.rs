//! The command catalog: the named device operations, their fixed byte
//! payloads, and the fixed activation script run against the device.

use vstd::prelude::*;

verus! {

/// A named device operation.
#[derive(Debug, Clone, Copy, PartialEq, Eq, Structural)]
pub enum Command {
    AimOn,
    AimOff,
    IlluminationOn,
    IlluminationOff,
    CapabilitiesRequest,
}

/// Which side of the link a frame originates from.
#[derive(Debug, Clone, Copy, PartialEq, Eq, Structural)]
pub enum Source {
    Device,
    Host,
}

impl Command {
    /// The opcode byte of this command on the wire.
    pub open spec fn opcode_spec(self) -> u8 {
        match self {
            Command::AimOn => 0xc5,
            Command::AimOff => 0xc4,
            Command::IlluminationOn => 0xc1,
            Command::IlluminationOff => 0xc0,
            Command::CapabilitiesRequest => 0xd3,
        }
    }

    /// Returns the opcode byte of this command.
    pub fn opcode(self) -> (b: u8)
        ensures
            b == self.opcode_spec(),
    {
        match self {
            Command::AimOn => 0xc5,
            Command::AimOff => 0xc4,
            Command::IlluminationOn => 0xc1,
            Command::IlluminationOff => 0xc0,
            Command::CapabilitiesRequest => 0xd3,
        }
    }
}

impl Source {
    /// The source tag byte on the wire.
    pub open spec fn byte_spec(self) -> u8 {
        match self {
            Source::Device => 0x00,
            Source::Host => 0x04,
        }
    }

    /// Returns the source tag byte.
    pub fn byte(self) -> (b: u8)
        ensures
            b == self.byte_spec(),
    {
        match self {
            Source::Device => 0x00,
            Source::Host => 0x04,
        }
    }
}

/// The catalog payload of `c` when sent by the host with no extra
/// arguments: the opcode, the host source tag, and a reserved status byte
/// of zero.
pub open spec fn command_payload_spec(c: Command) -> Seq<u8> {
    seq![c.opcode_spec(), Source::Host.byte_spec(), 0u8]
}

/// Looks up the fixed byte payload of the named command `c`.
pub fn command_payload(c: Command) -> (v: Vec<u8>)
    ensures
        v@ == command_payload_spec(c),
{
    let mut v: Vec<u8> = Vec::new();
    v.push(c.opcode());
    v.push(Source::Host.byte());
    v.push(0);
    proof {
        assert(v@ =~= command_payload_spec(c));
    }
    v
}

/// The fixed device activation script: each entry is a command paired with
/// the settling delay, in seconds, to wait after its transaction completes.
pub fn script() -> (s: Vec<(Command, u64)>)
    ensures
        s@ == seq![
            (Command::AimOn, 1u64),
            (Command::AimOff, 0u64),
            (Command::CapabilitiesRequest, 0u64),
        ],
{
    let mut s: Vec<(Command, u64)> = Vec::new();
    s.push((Command::AimOn, 1));
    s.push((Command::AimOff, 0));
    s.push((Command::CapabilitiesRequest, 0));
    proof {
        assert(s@ =~= seq![
            (Command::AimOn, 1u64),
            (Command::AimOff, 0u64),
            (Command::CapabilitiesRequest, 0u64),
        ]);
    }
    s
}

} // verus!
