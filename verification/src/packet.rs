//! Logical packets: a command with its source tag, status byte and
//! arguments, together with the frame fields it occupies on the wire.

use vstd::prelude::*;
use vstd::pervasive::unreached;
use crate::checksum::{checksum, checksum_spec, lemma_checksum_spec_bound};
use crate::command::{command_payload, command_payload_spec, Command, Source};
use crate::frame::{compose, compose_spec, FrameError};

verus! {

/// One logical packet: the command section a frame carries, split into its
/// parts, plus the length byte and checksum that section gets on the wire.
#[derive(Debug, Clone, PartialEq, Eq)]
pub struct Packet {
    pub length: u8,
    pub command: Command,
    pub source: Source,
    pub status: u8,
    pub payload: Vec<u8>,
    pub checksum: u16,
}

impl Packet {
    /// The checksum-covered command section of this packet: opcode, source
    /// tag, status byte, then the argument bytes.
    pub open spec fn command_section(self) -> Seq<u8> {
        seq![self.command.opcode_spec(), self.source.byte_spec(), self.status] + self.payload@
    }

    /// A well-formed packet: the length byte counts the command section
    /// plus itself, and the checksum is the frame checksum of the length
    /// byte followed by the command section.
    pub open spec fn wf(self) -> bool {
        &&& self.payload@.len() + 4 <= 255
        &&& self.length == self.payload@.len() + 4
        &&& self.checksum == checksum_spec(seq![self.length] + self.command_section())
    }

    /// Builds a well-formed packet from its parts, deriving the length byte
    /// and checksum.
    pub fn new(command: Command, source: Source, status: u8, payload: Vec<u8>) -> (p: Packet)
        requires
            payload@.len() + 4 <= 255,
        ensures
            p.wf(),
            p.command == command,
            p.source == source,
            p.status == status,
            p.payload == payload,
    {
        let length = payload.len() as u8 + 4;
        let mut covered: Vec<u8> = Vec::new();
        covered.push(length);
        covered.push(command.opcode());
        covered.push(source.byte());
        covered.push(status);
        let mut i: usize = 0;
        while i < payload.len()
            invariant
                i <= payload@.len(),
                payload@.len() + 4 <= 255,
                covered@ =~= seq![
                    (payload@.len() + 4) as u8,
                    command.opcode_spec(),
                    source.byte_spec(),
                    status,
                ] + payload@.take(i as int),
            decreases payload@.len() - i,
        {
            covered.push(payload[i]);
            i = i + 1;
        }
        proof {
            assert(payload@.take(payload@.len() as int) =~= payload@);
        }
        let cs = checksum(covered.as_slice());
        let p = Packet { length, command, source, status, payload, checksum: cs };
        proof {
            lemma_checksum_spec_bound(covered@);
            assert(covered@ =~= seq![p.length] + p.command_section());
        }
        p
    }

    /// The wire frame of this packet: its length byte, its command section,
    /// and its big-endian checksum.
    pub fn wire_bytes(&self) -> (v: Vec<u8>)
        requires
            self.wf(),
        ensures
            v@ == compose_spec(self.command_section()),
    {
        let mut section: Vec<u8> = Vec::new();
        section.push(self.command.opcode());
        section.push(self.source.byte());
        section.push(self.status);
        let mut i: usize = 0;
        while i < self.payload.len()
            invariant
                i <= self.payload@.len(),
                section@ =~= seq![
                    self.command.opcode_spec(),
                    self.source.byte_spec(),
                    self.status,
                ] + self.payload@.take(i as int),
            decreases self.payload@.len() - i,
        {
            section.push(self.payload[i]);
            i = i + 1;
        }
        proof {
            assert(self.payload@.take(self.payload@.len() as int) =~= self.payload@);
            assert(section@ =~= self.command_section());
        }
        match compose(section.as_slice()) {
            Ok(v) => v,
            Err(_) => unreached(),
        }
    }
}

/// Composes the wire frame that sends `command` from the host with a status
/// byte of zero and the argument bytes `payload`.
pub fn compose_packet(command: Command, payload: &[u8]) -> (v: Vec<u8>)
    requires
        payload@.len() + 4 <= 255,
    ensures
        v@ == compose_spec(command_payload_spec(command) + payload@),
{
    let mut section = command_payload(command);
    let mut i: usize = 0;
    while i < payload.len()
        invariant
            i <= payload@.len(),
            section@ =~= command_payload_spec(command) + payload@.take(i as int),
        decreases payload@.len() - i,
    {
        section.push(payload[i]);
        i = i + 1;
    }
    proof {
        assert(payload@.take(payload@.len() as int) =~= payload@);
        assert(section@ =~= command_payload_spec(command) + payload@);
    }
    match compose(section.as_slice()) {
        Ok(v) => v,
        Err(_) => unreached(),
    }
}

} // verus!
