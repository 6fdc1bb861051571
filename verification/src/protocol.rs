//! The UDPBD packets and their byte layout.
//!
//! Every packet starts with a two-byte [`Header`]. All scalars are
//! little-endian and packed without padding.

use vstd::prelude::*;
use vstd::arithmetic::power2::{pow2, lemma2_to64, lemma_pow2_strictly_increases};
use crate::wire::{
    bits_i32, bits_to_i32, i32_bits, i32_to_bits, le_u16, le_u32, lemma_i32_bits_roundtrip,
    lemma_le_u16_reads, lemma_le_u32_reads, lemma_u16_le_bytes, lemma_u16_le_len,
    lemma_u32_le_bytes, lemma_u32_le_len, push_bytes, push_u16_le, push_u32_le, read_u16_le,
    read_u32_le, u16_le_bytes, u32_le_bytes,
};

verus! {

/// The UDP port the server listens on.
pub const UDPBD_PORT: u16 = 0xBDBD;

/// The largest UDP payload of one packet.
pub const UDP_MAX_PAYLOAD: usize = 1472;

/// The largest data part of an RDMA packet: what is left of
/// [`UDP_MAX_PAYLOAD`] after the header and the block type.
///
/// How much of it one packet can use depends on the block size:
/// 4 * 366 = 1464, 8 * 183 = 1464, 16 * 91 = 1456, 32 * 45 = 1440,
/// 64 * 22 = 1408, 128 * 11 = 1408, 256 * 5 = 1280, 512 * 2 = 1024.
pub const RDMA_MAX_PAYLOAD: usize = 1466;

/// The commands of the protocol, held in the low five bits of a header.
#[derive(Debug, Clone, Copy, PartialEq, Eq, Structural)]
pub enum Command {
    /// client -> server
    Info,
    /// server -> client
    InfoReply,
    /// client -> server
    Read,
    /// server -> client
    ReadRdma,
    /// client -> server
    Write,
    /// client -> server
    WriteRdma,
    /// server -> client
    WriteDone,
}

impl Command {
    /// The code of the command on the wire.
    pub open spec fn spec_raw_value(self) -> u8 {
        match self {
            Command::Info => 0,
            Command::InfoReply => 1,
            Command::Read => 2,
            Command::ReadRdma => 3,
            Command::Write => 4,
            Command::WriteRdma => 5,
            Command::WriteDone => 6,
        }
    }

    /// The command with code `value`, or the code itself where it is
    /// reserved.
    pub open spec fn spec_new_with_raw_value(value: u8) -> Result<Command, u8> {
        if value == 0 {
            Ok(Command::Info)
        } else if value == 1 {
            Ok(Command::InfoReply)
        } else if value == 2 {
            Ok(Command::Read)
        } else if value == 3 {
            Ok(Command::ReadRdma)
        } else if value == 4 {
            Ok(Command::Write)
        } else if value == 5 {
            Ok(Command::WriteRdma)
        } else if value == 6 {
            Ok(Command::WriteDone)
        } else {
            Err(value)
        }
    }

    /// The code of the command on the wire.
    pub fn raw_value(self) -> (value: u8)
        ensures
            value == self.spec_raw_value(),
            value <= 6,
    {
        match self {
            Command::Info => 0,
            Command::InfoReply => 1,
            Command::Read => 2,
            Command::ReadRdma => 3,
            Command::Write => 4,
            Command::WriteRdma => 5,
            Command::WriteDone => 6,
        }
    }

    /// Decodes a command code; a reserved code comes back as the error.
    pub fn new_with_raw_value(value: u8) -> (r: Result<Command, u8>)
        ensures
            r == Command::spec_new_with_raw_value(value),
            r is Ok <==> value <= 6,
            r is Ok ==> r->Ok_0.spec_raw_value() == value,
            r is Err ==> r->Err_0 == value,
    {
        match value {
            0 => Ok(Command::Info),
            1 => Ok(Command::InfoReply),
            2 => Ok(Command::Read),
            3 => Ok(Command::ReadRdma),
            4 => Ok(Command::Write),
            5 => Ok(Command::WriteRdma),
            6 => Ok(Command::WriteDone),
            other => Err(other),
        }
    }
}

/// Decoding the code of a command gives the command back.
pub proof fn lemma_command_code_roundtrip(c: Command)
    ensures
        Command::spec_new_with_raw_value(c.spec_raw_value()) == Ok::<Command, u8>(c),
{
}

/// The two-byte packet header: bits 0..=4 hold the command, bits 5..=7 the
/// command id, bits 8..=15 the packet number within the command.
#[derive(Debug, Clone, Copy, PartialEq, Eq, Structural)]
pub struct Header {
    /// The sixteen bits as one little-endian number.
    pub raw: u16,
}

impl Header {
    /// Bits 0..=4: the command code, 0..31.
    pub open spec fn spec_command_code(self) -> u8 {
        (self.raw % 32) as u8
    }

    /// The command, or its code where that is reserved.
    pub open spec fn spec_command(self) -> Result<Command, u8> {
        Command::spec_new_with_raw_value(self.spec_command_code())
    }

    /// Bits 5..=7: the command id, 0..7.
    pub open spec fn spec_command_id(self) -> u8 {
        ((self.raw / 32) % 8) as u8
    }

    /// Bits 8..=15: the packet number, 0 for a request.
    pub open spec fn spec_command_pkt(self) -> u8 {
        (self.raw / 256) as u8
    }

    /// The header made of the three fields.
    pub open spec fn spec_of(code: u8, id: u8, pkt: u8) -> Header
        recommends
            code < 32,
            id < 8,
    {
        Header { raw: (code + 32 * id + 256 * pkt) as u16 }
    }

    /// The two bytes of the header on the wire.
    pub open spec fn spec_bytes(self) -> Seq<u8> {
        u16_le_bytes(self.raw)
    }

    /// The header at the start of `b`, where `b` holds one.
    pub open spec fn spec_parse(b: Seq<u8>) -> Option<Header> {
        if b.len() >= 2 {
            Some(Header { raw: le_u16(b, 0) })
        } else {
            None
        }
    }

    /// A header from its sixteen bits.
    pub fn new_with_raw_value(raw: u16) -> (h: Header)
        ensures
            h.raw == raw,
    {
        Header { raw }
    }

    /// The sixteen bits of the header.
    pub fn raw_value(&self) -> (raw: u16)
        ensures
            raw == self.raw,
    {
        self.raw
    }

    /// The command, or the reserved code found in its place.
    pub fn command(&self) -> (r: Result<Command, u8>)
        ensures
            r == self.spec_command(),
            r is Ok <==> self.spec_command_code() <= 6,
    {
        Command::new_with_raw_value((self.raw % 32) as u8)
    }

    /// The command id.
    pub fn command_id(&self) -> (id: u8)
        ensures
            id == self.spec_command_id(),
            id < 8,
    {
        ((self.raw / 32) % 8) as u8
    }

    /// The packet number.
    pub fn command_pkt(&self) -> (pkt: u8)
        ensures
            pkt == self.spec_command_pkt(),
    {
        (self.raw / 256) as u8
    }

    /// The same header with its command replaced.
    pub fn with_command(&self, command: Command) -> (h: Header)
        ensures
            h == Header::spec_of(
                command.spec_raw_value(),
                self.spec_command_id(),
                self.spec_command_pkt(),
            ),
            h.spec_command() == Ok::<Command, u8>(command),
            h.spec_command_id() == self.spec_command_id(),
            h.spec_command_pkt() == self.spec_command_pkt(),
    {
        let code: u16 = command.raw_value() as u16;
        Header { raw: self.raw - self.raw % 32 + code }
    }

    /// The same header with its command id replaced.
    pub fn with_command_id(&self, id: u8) -> (h: Header)
        requires
            id < 8,
        ensures
            h == Header::spec_of(self.spec_command_code(), id, self.spec_command_pkt()),
            h.spec_command_code() == self.spec_command_code(),
            h.spec_command_id() == id,
            h.spec_command_pkt() == self.spec_command_pkt(),
    {
        let old_id: u16 = (self.raw / 32) % 8;
        Header { raw: self.raw - 32 * old_id + 32 * (id as u16) }
    }

    /// The same header with its packet number replaced.
    pub fn with_command_pkt(&self, pkt: u8) -> (h: Header)
        ensures
            h == Header::spec_of(self.spec_command_code(), self.spec_command_id(), pkt),
            h.spec_command_code() == self.spec_command_code(),
            h.spec_command_id() == self.spec_command_id(),
            h.spec_command_pkt() == pkt,
    {
        Header { raw: self.raw % 256 + 256 * (pkt as u16) }
    }

    /// Parses the header at the start of `b`.
    pub fn from_bytes(b: &[u8]) -> (r: Option<Header>)
        ensures
            r == Header::spec_parse(b@),
            r is Some <==> b@.len() >= 2,
    {
        if b.len() >= 2 {
            Some(Header { raw: read_u16_le(b, 0) })
        } else {
            None
        }
    }

    /// The two bytes of the header.
    pub fn to_bytes(&self) -> (out: Vec<u8>)
        ensures
            out@ == self.spec_bytes(),
            out@.len() == 2,
    {
        let mut out: Vec<u8> = Vec::new();
        push_u16_le(&mut out, self.raw);
        assert(out@ =~= self.spec_bytes());
        out
    }
}

/// The size of a block, in bytes, for a block shift: `1 << (shift + 2)`.
pub open spec fn block_size_of(shift: nat) -> nat {
    pow2(shift + 2)
}

/// The three fields of a block type can be read back from the number that
/// packs them.
pub proof fn lemma_block_type_fields(shift: u8, count: u16, spare: u32)
    requires
        shift < 16,
        count < 512,
        spare < 524288,
    ensures
        shift + 16 * count + 8192 * spare <= u32::MAX,
        BlockType::spec_of(shift, count, spare).spec_block_shift() == shift,
        BlockType::spec_of(shift, count, spare).spec_block_count() == count,
        BlockType::spec_of(shift, count, spare).spec_spare() == spare,
{
    let raw = shift + 16 * count + 8192 * spare;
    let mid = count + 512 * spare;
    assert(raw == shift + 16 * mid);
    assert(raw % 16 == shift as int);
    assert(raw / 16 == mid);
    assert(mid % 512 == count as int);
    assert(mid / 512 == spare as int);
    assert(raw / 8192 == spare as int);
}

/// Every thirty-two bits are the packing of their three fields.
pub proof fn lemma_block_type_packs(t: BlockType)
    ensures
        t == BlockType::spec_of(t.spec_block_shift(), t.spec_block_count(), t.spec_spare()),
        t.spec_block_shift() < 16,
        t.spec_block_count() < 512,
        t.spec_spare() < 524288,
{
    let raw = t.raw as int;
    let mid = raw / 16;
    assert(raw == raw % 16 + 16 * mid);
    assert(mid == mid % 512 + 512 * (mid / 512));
    assert(mid / 512 == raw / 8192);
}

/// The four-byte block descriptor of an RDMA packet: bits 0..=3 hold the
/// block shift, bits 4..=12 the block count, the rest is spare.
#[derive(Debug, Clone, Copy, PartialEq, Eq, Structural)]
pub struct BlockType {
    /// The thirty-two bits as one little-endian number.
    pub raw: u32,
}

impl BlockType {
    /// Bits 0..=3: the block shift.
    pub open spec fn spec_block_shift(self) -> u8 {
        (self.raw % 16) as u8
    }

    /// Bits 4..=12: the number of blocks.
    pub open spec fn spec_block_count(self) -> u16 {
        ((self.raw / 16) % 512) as u16
    }

    /// Bits 13..=31.
    pub open spec fn spec_spare(self) -> u32 {
        self.raw / 8192
    }

    /// The block type made of the three fields.
    pub open spec fn spec_of(shift: u8, count: u16, spare: u32) -> BlockType
        recommends
            shift < 16,
            count < 512,
            spare < 524288,
    {
        BlockType { raw: (shift + 16 * count + 8192 * spare) as u32 }
    }

    /// The number of data bytes the block type announces.
    pub open spec fn spec_blocks_size(self) -> nat {
        (self.spec_block_count() as nat) * block_size_of(self.spec_block_shift() as nat)
    }

    /// The four bytes of the block type on the wire.
    pub open spec fn spec_bytes(self) -> Seq<u8> {
        u32_le_bytes(self.raw)
    }

    /// A block type from its thirty-two bits.
    pub fn new_with_raw_value(raw: u32) -> (t: BlockType)
        ensures
            t.raw == raw,
    {
        BlockType { raw }
    }

    /// The thirty-two bits of the block type.
    pub fn raw_value(&self) -> (raw: u32)
        ensures
            raw == self.raw,
    {
        self.raw
    }

    /// The block shift.
    pub fn block_shift(&self) -> (shift: u8)
        ensures
            shift == self.spec_block_shift(),
            shift < 16,
    {
        (self.raw % 16) as u8
    }

    /// The number of blocks.
    pub fn block_count(&self) -> (count: u16)
        ensures
            count == self.spec_block_count(),
            count < 512,
    {
        ((self.raw / 16) % 512) as u16
    }

    /// The same block type with its shift replaced.
    pub fn with_block_shift(&self, shift: u8) -> (t: BlockType)
        requires
            shift < 16,
        ensures
            t == BlockType::spec_of(shift, self.spec_block_count(), self.spec_spare()),
            t.spec_block_shift() == shift,
            t.spec_block_count() == self.spec_block_count(),
            t.spec_spare() == self.spec_spare(),
    {
        proof {
            lemma_block_type_packs(*self);
            lemma_block_type_fields(shift, self.spec_block_count(), self.spec_spare());
        }
        BlockType { raw: self.raw - self.raw % 16 + (shift as u32) }
    }

    /// The same block type with its block count replaced.
    pub fn with_block_count(&self, count: u16) -> (t: BlockType)
        requires
            count < 512,
        ensures
            t == BlockType::spec_of(self.spec_block_shift(), count, self.spec_spare()),
            t.spec_block_shift() == self.spec_block_shift(),
            t.spec_block_count() == count,
            t.spec_spare() == self.spec_spare(),
    {
        proof {
            lemma_block_type_packs(*self);
            lemma_block_type_fields(self.spec_block_shift(), count, self.spec_spare());
        }
        let old_count: u32 = (self.raw / 16) % 512;
        BlockType { raw: self.raw - 16 * old_count + 16 * (count as u32) }
    }

    /// The number of data bytes announced: the block count times the block
    /// size.
    pub fn blocks_size(&self) -> (size: u32)
        ensures
            size == self.spec_blocks_size(),
            size <= 511 * 131072,
    {
        let block_count: u32 = self.block_count() as u32;
        let block_shift: u32 = self.block_shift() as u32;
        proof {
            lemma2_to64();
            if block_shift + 2 < 17 {
                lemma_pow2_strictly_increases((block_shift + 2) as nat, 17);
            }
            vstd::bits::lemma_u32_shl_is_mul(1u32, (block_shift + 2) as u32);
            assert(block_count * pow2((block_shift + 2) as nat) <= 511 * 131072)
                by (nonlinear_arith)
                requires
                    block_count <= 511,
                    pow2((block_shift + 2) as nat) <= 131072,
            ;
        }
        block_count * (1u32 << (block_shift + 2))
    }
}

/// An info request: the header alone. It may be broadcast to find the
/// server on the network.
///
/// Sequence of packets: the client's `InfoRequest`, the server's
/// [`InfoReply`].
#[derive(Debug, Clone, Copy, PartialEq, Eq, Structural)]
pub struct InfoRequest {
    pub header: Header,
}

impl InfoRequest {
    /// The two bytes of the packet.
    pub open spec fn spec_bytes(self) -> Seq<u8> {
        self.header.spec_bytes()
    }

    /// The request at the start of `b`, where `b` holds one.
    pub open spec fn spec_parse(b: Seq<u8>) -> Option<InfoRequest> {
        if b.len() >= 2 {
            Some(InfoRequest { header: Header { raw: le_u16(b, 0) } })
        } else {
            None
        }
    }

    /// Parses the request at the start of `b`.
    pub fn from_bytes(b: &[u8]) -> (r: Option<InfoRequest>)
        ensures
            r == InfoRequest::spec_parse(b@),
            r is Some <==> b@.len() >= 2,
    {
        if b.len() >= 2 {
            Some(InfoRequest { header: Header { raw: read_u16_le(b, 0) } })
        } else {
            None
        }
    }

    /// The two bytes of the packet.
    pub fn to_bytes(&self) -> (out: Vec<u8>)
        ensures
            out@ == self.spec_bytes(),
            out@.len() == 2,
    {
        self.header.to_bytes()
    }
}

/// The reply to an info request: the geometry of the served volume.
#[derive(Debug, Clone, Copy, PartialEq, Eq, Structural)]
pub struct InfoReply {
    pub header: Header,
    pub sector_size: u32,
    /// 32 bits here, though a read or write request counts sectors in 16.
    pub sector_count: u32,
}

impl InfoReply {
    /// The ten bytes of the packet.
    pub open spec fn spec_bytes(self) -> Seq<u8> {
        self.header.spec_bytes() + u32_le_bytes(self.sector_size) + u32_le_bytes(
            self.sector_count,
        )
    }

    /// The reply at the start of `b`, where `b` holds one.
    pub open spec fn spec_parse(b: Seq<u8>) -> Option<InfoReply> {
        if b.len() >= 10 {
            Some(
                InfoReply {
                    header: Header { raw: le_u16(b, 0) },
                    sector_size: le_u32(b, 2),
                    sector_count: le_u32(b, 6),
                },
            )
        } else {
            None
        }
    }

    /// Parses the reply at the start of `b`.
    pub fn from_bytes(b: &[u8]) -> (r: Option<InfoReply>)
        ensures
            r == InfoReply::spec_parse(b@),
            r is Some <==> b@.len() >= 10,
    {
        if b.len() >= 10 {
            Some(
                InfoReply {
                    header: Header { raw: read_u16_le(b, 0) },
                    sector_size: read_u32_le(b, 2),
                    sector_count: read_u32_le(b, 6),
                },
            )
        } else {
            None
        }
    }

    /// The ten bytes of the packet.
    pub fn to_bytes(&self) -> (out: Vec<u8>)
        ensures
            out@ == self.spec_bytes(),
            out@.len() == 10,
    {
        let mut out: Vec<u8> = Vec::new();
        push_u16_le(&mut out, self.header.raw);
        push_u32_le(&mut out, self.sector_size);
        push_u32_le(&mut out, self.sector_count);
        assert(out@ =~= self.spec_bytes());
        out
    }
}

/// A read or a write request.
///
/// A read is answered by one or more RDMA packets. A write is followed by
/// one or more RDMA packets of the client, and then answered by a
/// [`WriteReply`].
#[derive(Debug, Clone, Copy, PartialEq, Eq, Structural)]
pub struct ReadWriteRequest {
    pub header: Header,
    pub sector_nr: u32,
    pub sector_count: u16,
}

impl ReadWriteRequest {
    /// The eight bytes of the packet.
    pub open spec fn spec_bytes(self) -> Seq<u8> {
        self.header.spec_bytes() + u32_le_bytes(self.sector_nr) + u16_le_bytes(
            self.sector_count,
        )
    }

    /// The request at the start of `b`, where `b` holds one.
    pub open spec fn spec_parse(b: Seq<u8>) -> Option<ReadWriteRequest> {
        if b.len() >= 8 {
            Some(
                ReadWriteRequest {
                    header: Header { raw: le_u16(b, 0) },
                    sector_nr: le_u32(b, 2),
                    sector_count: le_u16(b, 6),
                },
            )
        } else {
            None
        }
    }

    /// Parses the request at the start of `b`.
    pub fn from_bytes(b: &[u8]) -> (r: Option<ReadWriteRequest>)
        ensures
            r == ReadWriteRequest::spec_parse(b@),
            r is Some <==> b@.len() >= 8,
    {
        if b.len() >= 8 {
            Some(
                ReadWriteRequest {
                    header: Header { raw: read_u16_le(b, 0) },
                    sector_nr: read_u32_le(b, 2),
                    sector_count: read_u16_le(b, 6),
                },
            )
        } else {
            None
        }
    }

    /// The eight bytes of the packet.
    pub fn to_bytes(&self) -> (out: Vec<u8>)
        ensures
            out@ == self.spec_bytes(),
            out@.len() == 8,
    {
        let mut out: Vec<u8> = Vec::new();
        push_u16_le(&mut out, self.header.raw);
        push_u32_le(&mut out, self.sector_nr);
        push_u16_le(&mut out, self.sector_count);
        assert(out@ =~= self.spec_bytes());
        out
    }
}

/// The acknowledgement of a finished write.
#[derive(Debug, Clone, Copy, PartialEq, Eq, Structural)]
pub struct WriteReply {
    pub header: Header,
    pub result: i32,
}

impl WriteReply {
    /// The six bytes of the packet.
    pub open spec fn spec_bytes(self) -> Seq<u8> {
        self.header.spec_bytes() + u32_le_bytes(i32_bits(self.result))
    }

    /// The reply at the start of `b`, where `b` holds one.
    pub open spec fn spec_parse(b: Seq<u8>) -> Option<WriteReply> {
        if b.len() >= 6 {
            Some(
                WriteReply {
                    header: Header { raw: le_u16(b, 0) },
                    result: bits_i32(le_u32(b, 2)),
                },
            )
        } else {
            None
        }
    }

    /// Parses the reply at the start of `b`.
    pub fn from_bytes(b: &[u8]) -> (r: Option<WriteReply>)
        ensures
            r == WriteReply::spec_parse(b@),
            r is Some <==> b@.len() >= 6,
    {
        if b.len() >= 6 {
            Some(
                WriteReply {
                    header: Header { raw: read_u16_le(b, 0) },
                    result: bits_to_i32(read_u32_le(b, 2)),
                },
            )
        } else {
            None
        }
    }

    /// The six bytes of the packet.
    pub fn to_bytes(&self) -> (out: Vec<u8>)
        ensures
            out@ == self.spec_bytes(),
            out@.len() == 6,
    {
        let mut out: Vec<u8> = Vec::new();
        push_u16_le(&mut out, self.header.raw);
        push_u32_le(&mut out, i32_to_bits(self.result));
        assert(out@ =~= self.spec_bytes());
        out
    }
}

/// A remote DMA packet, which carries the bulk data of a read or a write.
///
/// On the PS2 the length of a packet must be a multiple of four plus two:
/// the header and the block type take six bytes, and the data is a whole
/// number of blocks of at least four bytes.
#[derive(Debug, Clone, PartialEq, Eq)]
pub struct Rdma {
    pub header: Header,
    pub block_type: BlockType,
    /// The data that follows the block type, at most
    /// [`RDMA_MAX_PAYLOAD`] bytes.
    pub data: Vec<u8>,
}

impl Rdma {
    /// The data fits into one UDP packet.
    pub open spec fn wf(self) -> bool {
        self.data@.len() <= RDMA_MAX_PAYLOAD
    }

    /// The bytes of the packet: header, block type, data.
    pub open spec fn spec_bytes(self) -> Seq<u8> {
        self.header.spec_bytes() + self.block_type.spec_bytes() + self.data@
    }

    /// Whether `b` holds an RDMA packet: the six leading bytes, and no more
    /// than a UDP packet can carry.
    pub open spec fn spec_parses(b: Seq<u8>) -> bool {
        6 <= b.len() <= UDP_MAX_PAYLOAD
    }

    /// The header that parsing `b` gives.
    pub open spec fn spec_parse_header(b: Seq<u8>) -> Header {
        Header { raw: le_u16(b, 0) }
    }

    /// The block type that parsing `b` gives.
    pub open spec fn spec_parse_block_type(b: Seq<u8>) -> BlockType {
        BlockType { raw: le_u32(b, 2) }
    }

    /// The data that parsing `b` gives: all that follows the block type.
    pub open spec fn spec_parse_data(b: Seq<u8>) -> Seq<u8> {
        b.subrange(6, b.len() as int)
    }

    /// Parses the packet that `b` holds. The data is what follows the
    /// block type, whatever number of bytes the block type announces.
    pub fn from_bytes(b: &[u8]) -> (r: Option<Rdma>)
        ensures
            r is Some <==> Rdma::spec_parses(b@),
            r is Some ==> {
                &&& r->Some_0.header == Rdma::spec_parse_header(b@)
                &&& r->Some_0.block_type == Rdma::spec_parse_block_type(b@)
                &&& r->Some_0.data@ == Rdma::spec_parse_data(b@)
                &&& r->Some_0.wf()
            },
    {
        if b.len() >= 6 && b.len() <= UDP_MAX_PAYLOAD {
            let mut data: Vec<u8> = Vec::new();
            push_bytes(&mut data, b, 6, b.len());
            assert(data@ =~= Rdma::spec_parse_data(b@));
            Some(
                Rdma {
                    header: Header { raw: read_u16_le(b, 0) },
                    block_type: BlockType { raw: read_u32_le(b, 2) },
                    data,
                },
            )
        } else {
            None
        }
    }

    /// The bytes of the packet.
    pub fn to_bytes(&self) -> (out: Vec<u8>)
        ensures
            out@ == self.spec_bytes(),
            out@.len() == 6 + self.data@.len(),
    {
        let mut out: Vec<u8> = Vec::new();
        push_u16_le(&mut out, self.header.raw);
        push_u32_le(&mut out, self.block_type.raw);
        push_bytes(&mut out, self.data.as_slice(), 0, self.data.len());
        assert(self.data@.subrange(0, self.data@.len() as int) =~= self.data@);
        assert(out@ =~= self.spec_bytes());
        out
    }
}

/// A header survives being written and parsed, and two bytes survive being
/// parsed and written.
pub proof fn lemma_header_roundtrip(h: Header, b: Seq<u8>)
    requires
        b.len() == 2,
    ensures
        Header::spec_parse(h.spec_bytes()) == Some(h),
        Header::spec_parse(b) is Some,
        Header::spec_parse(b)->Some_0.spec_bytes() == b,
{
    let s = h.spec_bytes();
    lemma_u16_le_len(h.raw);
    assert(s.subrange(0, 2) =~= u16_le_bytes(h.raw));
    lemma_le_u16_reads(s, 0, h.raw);
    lemma_u16_le_bytes(b, 0);
    assert(b.subrange(0, 2) =~= b);
}

/// An info request survives being written and parsed, and its two bytes
/// survive being parsed and written.
pub proof fn lemma_info_request_roundtrip(p: InfoRequest, b: Seq<u8>)
    requires
        b.len() == 2,
    ensures
        InfoRequest::spec_parse(p.spec_bytes()) == Some(p),
        InfoRequest::spec_parse(b) is Some,
        InfoRequest::spec_parse(b)->Some_0.spec_bytes() == b,
{
    lemma_header_roundtrip(p.header, b);
}

/// An info reply survives being written and parsed, and its ten bytes
/// survive being parsed and written.
pub proof fn lemma_info_reply_roundtrip(p: InfoReply, b: Seq<u8>)
    requires
        b.len() == 10,
    ensures
        InfoReply::spec_parse(p.spec_bytes()) == Some(p),
        InfoReply::spec_parse(b) is Some,
        InfoReply::spec_parse(b)->Some_0.spec_bytes() == b,
{
    let s = p.spec_bytes();
    lemma_u16_le_len(p.header.raw);
    lemma_u32_le_len(p.sector_size);
    lemma_u32_le_len(p.sector_count);
    assert(s.subrange(0, 2) =~= u16_le_bytes(p.header.raw));
    assert(s.subrange(2, 6) =~= u32_le_bytes(p.sector_size));
    assert(s.subrange(6, 10) =~= u32_le_bytes(p.sector_count));
    lemma_le_u16_reads(s, 0, p.header.raw);
    lemma_le_u32_reads(s, 2, p.sector_size);
    lemma_le_u32_reads(s, 6, p.sector_count);
    lemma_u16_le_bytes(b, 0);
    lemma_u32_le_bytes(b, 2);
    lemma_u32_le_bytes(b, 6);
    assert(b.subrange(0, 2) + b.subrange(2, 6) + b.subrange(6, 10) =~= b);
}

/// A read or write request survives being written and parsed, and its
/// eight bytes survive being parsed and written.
pub proof fn lemma_read_write_request_roundtrip(p: ReadWriteRequest, b: Seq<u8>)
    requires
        b.len() == 8,
    ensures
        ReadWriteRequest::spec_parse(p.spec_bytes()) == Some(p),
        ReadWriteRequest::spec_parse(b) is Some,
        ReadWriteRequest::spec_parse(b)->Some_0.spec_bytes() == b,
{
    let s = p.spec_bytes();
    lemma_u16_le_len(p.header.raw);
    lemma_u32_le_len(p.sector_nr);
    lemma_u16_le_len(p.sector_count);
    assert(s.subrange(0, 2) =~= u16_le_bytes(p.header.raw));
    assert(s.subrange(2, 6) =~= u32_le_bytes(p.sector_nr));
    assert(s.subrange(6, 8) =~= u16_le_bytes(p.sector_count));
    lemma_le_u16_reads(s, 0, p.header.raw);
    lemma_le_u32_reads(s, 2, p.sector_nr);
    lemma_le_u16_reads(s, 6, p.sector_count);
    lemma_u16_le_bytes(b, 0);
    lemma_u32_le_bytes(b, 2);
    lemma_u16_le_bytes(b, 6);
    assert(b.subrange(0, 2) + b.subrange(2, 6) + b.subrange(6, 8) =~= b);
}

/// A write reply survives being written and parsed, and its six bytes
/// survive being parsed and written.
pub proof fn lemma_write_reply_roundtrip(p: WriteReply, b: Seq<u8>)
    requires
        b.len() == 6,
    ensures
        WriteReply::spec_parse(p.spec_bytes()) == Some(p),
        WriteReply::spec_parse(b) is Some,
        WriteReply::spec_parse(b)->Some_0.spec_bytes() == b,
{
    let s = p.spec_bytes();
    let bits = i32_bits(p.result);
    lemma_u16_le_len(p.header.raw);
    lemma_u32_le_len(bits);
    assert(s.subrange(0, 2) =~= u16_le_bytes(p.header.raw));
    assert(s.subrange(2, 6) =~= u32_le_bytes(bits));
    lemma_le_u16_reads(s, 0, p.header.raw);
    lemma_le_u32_reads(s, 2, bits);
    lemma_i32_bits_roundtrip(p.result, le_u32(b, 2));
    lemma_u16_le_bytes(b, 0);
    lemma_u32_le_bytes(b, 2);
    assert(b.subrange(0, 2) + b.subrange(2, 6) =~= b);
}

/// An RDMA packet survives being written and parsed, and the bytes of one
/// survive being parsed and written.
pub proof fn lemma_rdma_roundtrip(p: Rdma, b: Seq<u8>)
    requires
        p.wf(),
        Rdma::spec_parses(b),
    ensures
        Rdma::spec_parses(p.spec_bytes()),
        Rdma::spec_parse_header(p.spec_bytes()) == p.header,
        Rdma::spec_parse_block_type(p.spec_bytes()) == p.block_type,
        Rdma::spec_parse_data(p.spec_bytes()) == p.data@,
        Rdma::spec_parse_header(b).spec_bytes() + Rdma::spec_parse_block_type(b).spec_bytes()
            + Rdma::spec_parse_data(b) == b,
{
    let s = p.spec_bytes();
    lemma_u16_le_len(p.header.raw);
    lemma_u32_le_len(p.block_type.raw);
    assert(s.subrange(0, 2) =~= u16_le_bytes(p.header.raw));
    assert(s.subrange(2, 6) =~= u32_le_bytes(p.block_type.raw));
    lemma_le_u16_reads(s, 0, p.header.raw);
    lemma_le_u32_reads(s, 2, p.block_type.raw);
    assert(Rdma::spec_parse_data(s) =~= p.data@);
    lemma_u16_le_bytes(b, 0);
    lemma_u32_le_bytes(b, 2);
    assert(b.subrange(0, 2) + b.subrange(2, 6) + b.subrange(6, b.len() as int) =~= b);
}

} // verus!
