//! The command state machine of the server.
//!
//! The caller owns the socket and the virtual device. It hands each
//! datagram to [`Server::run`] and acts on the [`Outcome`]: it sends a
//! reply, or drives a burst of RDMA packets with
//! [`Server::next_read_packet`], reading the device where a step says so.

use vstd::prelude::*;
use crate::protocol::{
    block_size_of, BlockType, Command, Header, InfoReply, InfoRequest, Rdma, ReadWriteRequest,
    WriteReply, RDMA_MAX_PAYLOAD,
};
use crate::utils::{lemma_rounded_up_div_bounds, lemma_rounded_up_div_unique, rounded_up_div};
use crate::vexfat::{best_shift, lemma_tuned_values, packets_needed, payload_cap, VexFat};
use crate::wire::{push_bytes, push_zeros};

verus! {

/// The server: the volume it serves and the write session, if one is open.
///
/// A write session is open while `write_size_left` is not zero.
#[derive(Debug, Clone, Copy, PartialEq, Eq, Structural)]
pub struct Server {
    pub block_device: VexFat,
    /// The bytes that the open write session still expects.
    pub write_size_left: usize,
    /// Whether the seek of the open write session succeeded.
    pub write_rdma_valid: bool,
}

/// A read that is being answered: what the next RDMA packet starts from.
#[derive(Debug, Clone, Copy, PartialEq, Eq, Structural)]
pub struct ReadBurst {
    /// The header of the next packet.
    pub header: Header,
    /// The block type of the packet before, or one without blocks.
    pub block_type: BlockType,
    /// The blocks that are still to be sent.
    pub blocks_left: u32,
    /// Whether the seek to the first sector succeeded. Where it did not,
    /// every packet of the burst carries zeros.
    pub seeked: bool,
}

/// One RDMA packet of a burst, before its data is known.
#[derive(Debug, Clone, Copy, PartialEq, Eq, Structural)]
pub struct ReadStep {
    pub header: Header,
    pub block_type: BlockType,
    /// The number of data bytes of the packet.
    pub size: usize,
    /// The byte offset in the volume at which the data starts, or `None`
    /// where the packet carries zeros.
    pub offset: Option<u64>,
}

/// What the server does with one datagram.
#[derive(Debug, Clone, PartialEq, Eq)]
pub enum Outcome {
    /// The datagram is shorter than the packet of its command: dropped.
    Malformed,
    /// The command code is reserved: dropped.
    UnknownCommand(u8),
    /// The command is one that only a server sends: dropped.
    UnexpectedCommand(Command),
    /// These bytes go back to the sender.
    Reply(Vec<u8>),
    /// A burst of RDMA packets goes back to the sender.
    Burst(ReadBurst),
    /// Nothing is sent.
    Silent,
}

/// The data bytes of the packets of a burst, in the order they are sent:
/// each packet takes `per_packet` blocks, the last one what is left.
pub open spec fn burst_payloads(blocks_left: nat, per_packet: nat, block_size: nat) -> Seq<nat>
    decreases blocks_left,
{
    if blocks_left == 0 || per_packet == 0 {
        Seq::empty()
    } else {
        let count = if blocks_left <= per_packet {
            blocks_left
        } else {
            per_packet
        };
        seq![count * block_size] + burst_payloads(
            (blocks_left - count) as nat,
            per_packet,
            block_size,
        )
    }
}

/// The sum of `sizes`.
pub open spec fn total(sizes: Seq<nat>) -> nat
    decreases sizes.len(),
{
    if sizes.len() == 0 {
        0
    } else {
        sizes[0] + total(sizes.drop_first())
    }
}

/// What is left of `left` expected bytes after a packet that announces
/// `size` bytes: the packet takes off its size, and no more than is left.
pub open spec fn left_after_packet(left: nat, size: nat) -> nat {
    if size <= left {
        (left - size) as nat
    } else {
        0
    }
}

/// What is left of `left` expected bytes after packets that announce
/// `sizes` bytes came in, one after the other.
pub open spec fn write_left_after(left: nat, sizes: Seq<nat>) -> nat
    decreases sizes.len(),
{
    if sizes.len() == 0 {
        left
    } else {
        write_left_after(left_after_packet(left, sizes[0]), sizes.drop_first())
    }
}

/// `size` bytes of `data`, with zeros where `data` is shorter.
pub open spec fn padded(data: Seq<u8>, size: nat) -> Seq<u8> {
    Seq::new(
        size,
        |i: int|
            if i < data.len() {
                data[i]
            } else {
                0u8
            },
    )
}

/// The packets of a burst carry all its blocks: their data bytes add up to
/// the blocks times the block size.
pub proof fn lemma_burst_total(blocks_left: nat, per_packet: nat, block_size: nat)
    requires
        per_packet > 0,
    ensures
        total(burst_payloads(blocks_left, per_packet, block_size)) == blocks_left * block_size,
    decreases blocks_left,
{
    if blocks_left > 0 {
        let count = if blocks_left <= per_packet {
            blocks_left
        } else {
            per_packet
        };
        let rest = burst_payloads((blocks_left - count) as nat, per_packet, block_size);
        lemma_burst_total((blocks_left - count) as nat, per_packet, block_size);
        let all = burst_payloads(blocks_left, per_packet, block_size);
        assert(all =~= seq![count * block_size] + rest);
        assert(all.len() == 1 + rest.len());
        assert(all[0] == count * block_size);
        assert(all.drop_first() =~= rest);
        assert(count * block_size + (blocks_left - count) * block_size == blocks_left
            * block_size) by (nonlinear_arith);
        assert(total(all) == all[0] + total(all.drop_first()));
    } else {
        assert(burst_payloads(blocks_left, per_packet, block_size).len() == 0);
        assert(blocks_left * block_size == 0) by (nonlinear_arith)
            requires
                blocks_left == 0,
        ;
    }
}

/// A burst takes as many packets as its blocks need at `per_packet` blocks
/// each.
pub proof fn lemma_burst_len(blocks_left: nat, per_packet: nat, block_size: nat)
    requires
        per_packet > 0,
    ensures
        burst_payloads(blocks_left, per_packet, block_size).len() == rounded_up_div(
            blocks_left,
            per_packet,
        ),
    decreases blocks_left,
{
    if blocks_left == 0 {
        lemma_rounded_up_div_unique(0, per_packet, 0);
    } else {
        let count = if blocks_left <= per_packet {
            blocks_left
        } else {
            per_packet
        };
        let rest = (blocks_left - count) as nat;
        lemma_burst_len(rest, per_packet, block_size);
        let q = rounded_up_div(rest, per_packet);
        lemma_rounded_up_div_bounds(rest, per_packet);
        if blocks_left <= per_packet {
            lemma_rounded_up_div_unique(0, per_packet, 0);
        }
        assert((q + 1) * per_packet == q * per_packet + per_packet) by (nonlinear_arith);
        lemma_rounded_up_div_unique(blocks_left, per_packet, q + 1);
    }
}

/// The RDMA packets that answer a read of `sectors` sectors carry
/// `sectors * 512` data bytes in all, at every block shift.
pub proof fn lemma_read_burst_covers_request(sectors: nat, shift: nat)
    requires
        shift <= 7,
    ensures
        total(
            burst_payloads(
                sectors * (512nat / block_size_of(shift)),
                RDMA_MAX_PAYLOAD as nat / block_size_of(shift),
                block_size_of(shift),
            ),
        ) == sectors * 512,
{
    vstd::arithmetic::power2::lemma2_to64();
    let bs = block_size_of(shift);
    assert(bs == 4 || bs == 8 || bs == 16 || bs == 32 || bs == 64 || bs == 128 || bs == 256 || bs
        == 512);
    lemma_burst_total(sectors * (512nat / bs), RDMA_MAX_PAYLOAD as nat / bs, bs);
    assert((512nat / bs) * bs == 512);
    assert(sectors * (512nat / bs) * bs == sectors * 512) by (nonlinear_arith)
        requires
            (512nat / bs) * bs == 512,
    ;
}

/// The packets that answer a read request carry `sector_count * 512` data
/// bytes in all.
pub proof fn lemma_read_started_total(
    before: Server,
    req: ReadWriteRequest,
    after: Server,
    burst: ReadBurst,
)
    requires
        before.read_started(req, after, burst),
    ensures
        total(
            burst_payloads(
                burst.blocks_left as nat,
                after.block_device.blocks_per_packet as nat,
                after.block_device.block_size as nat,
            ),
        ) == req.sector_count * 512,
{
    let device = after.block_device;
    lemma_tuned_values(device);
    lemma_burst_total(
        burst.blocks_left as nat,
        device.blocks_per_packet as nat,
        device.block_size as nat,
    );
    assert(req.sector_count * device.blocks_per_socket * device.block_size == req.sector_count
        * 512) by (nonlinear_arith)
        requires
            device.block_size * device.blocks_per_socket == 512,
    ;
}

/// The number of packets that answer a read request is the number that
/// the block shift was chosen for: the bytes of the sectors, divided by
/// the data bytes of a full packet and rounded up.
pub proof fn lemma_read_started_packets(
    before: Server,
    req: ReadWriteRequest,
    after: Server,
    burst: ReadBurst,
)
    requires
        before.read_started(req, after, burst),
    ensures
        burst_payloads(
            burst.blocks_left as nat,
            after.block_device.blocks_per_packet as nat,
            after.block_device.block_size as nat,
        ).len() == packets_needed(
            (req.sector_count * 512) as nat,
            after.block_device.block_shift as nat,
        ),
        after.block_device.block_shift == best_shift(req.sector_count as nat),
{
    let device = after.block_device;
    let blocks = burst.blocks_left as nat;
    let per_packet = device.blocks_per_packet as nat;
    let block_size = device.block_size as nat;
    let sectors = req.sector_count as nat;
    lemma_tuned_values(device);
    lemma_burst_len(blocks, per_packet, block_size);
    let q = rounded_up_div(blocks, per_packet);
    lemma_rounded_up_div_bounds(blocks, per_packet);
    let cap = payload_cap(device.block_shift as nat);
    assert(cap == per_packet * block_size);
    assert(blocks * block_size == sectors * 512) by (nonlinear_arith)
        requires
            blocks == sectors * device.blocks_per_socket,
            block_size * device.blocks_per_socket == 512,
    ;
    assert(sectors * 512 <= q * cap < sectors * 512 + cap) by (nonlinear_arith)
        requires
            blocks <= q * per_packet < blocks + per_packet,
            blocks * block_size == sectors * 512,
            cap == per_packet * block_size,
            block_size > 0,
    ;
    lemma_rounded_up_div_unique(sectors * 512, cap, q);
}

/// A step of a burst takes the first packet off it: the data bytes of the
/// step are those of the first packet that was left, and the packets left
/// after the step are the others. With no step, no packet was left.
pub proof fn lemma_read_step_takes_first(
    before: Server,
    burst: ReadBurst,
    after: Server,
    next: ReadBurst,
    step: Option<ReadStep>,
)
    requires
        before.wf(),
        before.read_stepped(burst, after, next, step),
    ensures
        after.wf(),
        burst_payloads(
            burst.blocks_left as nat,
            before.block_device.blocks_per_packet as nat,
            before.block_device.block_size as nat,
        ) == match step {
            Some(s) => seq![s.size as nat] + burst_payloads(
                next.blocks_left as nat,
                after.block_device.blocks_per_packet as nat,
                after.block_device.block_size as nat,
            ),
            None => Seq::empty(),
        },
{
    lemma_tuned_values(before.block_device);
}

/// Two steps in a row whose data comes from the volume read it without a
/// gap: the second starts where the first ends.
pub proof fn lemma_read_steps_are_consecutive(
    before: Server,
    burst: ReadBurst,
    between: Server,
    middle: ReadBurst,
    first: Option<ReadStep>,
    after: Server,
    last: ReadBurst,
    second: Option<ReadStep>,
)
    requires
        before.read_stepped(burst, between, middle, first),
        between.read_stepped(middle, after, last, second),
        first is Some,
        second is Some,
        second->Some_0.offset is Some,
    ensures
        first->Some_0.offset is Some ==> second->Some_0.offset->Some_0
            == first->Some_0.offset->Some_0 + first->Some_0.size,
        first->Some_0.offset is None ==> second->Some_0.offset->Some_0
            == before.block_device.position,
{
}

/// A server whose packet tuning is set keeps it set over every datagram.
pub proof fn lemma_run_keeps_tuning(
    before: Server,
    datagram: Seq<u8>,
    after: Server,
    outcome: Outcome,
)
    requires
        before.wf(),
        before.ran(datagram, after, outcome),
    ensures
        after.wf(),
{
}

/// A write session that expects `left` bytes has none left once the sizes
/// of the packets that came in add up to `left` or more, and what is
/// missing before that.
pub proof fn lemma_write_left_after(left: nat, sizes: Seq<nat>)
    ensures
        write_left_after(left, sizes) == if total(sizes) >= left {
            0
        } else {
            left - total(sizes)
        },
    decreases sizes.len(),
{
    if sizes.len() > 0 {
        lemma_write_left_after(left_after_packet(left, sizes[0]), sizes.drop_first());
    }
}

/// A write of `sectors` sectors is done exactly when the announced sizes
/// of the RDMA packets that came in add up to `sectors * 512` or more;
/// what goes beyond leaves nothing below zero.
pub proof fn lemma_write_session_done(sectors: nat, sizes: Seq<nat>)
    ensures
        write_left_after(sectors * 512, sizes) == 0 <==> total(sizes) >= sectors * 512,
        total(sizes) <= sectors * 512 ==> write_left_after(sectors * 512, sizes) + total(sizes)
            == sectors * 512,
{
    lemma_write_left_after(sectors * 512, sizes);
}

impl ReadStep {
    /// The RDMA packet of the step with the data read for it: the first
    /// `size` bytes of `data`, followed by zeros where `data` is shorter.
    pub fn rdma(&self, data: &[u8]) -> (packet: Rdma)
        ensures
            packet.header == self.header,
            packet.block_type == self.block_type,
            packet.data@ == padded(data@, self.size as nat),
            self.size <= RDMA_MAX_PAYLOAD ==> packet.wf(),
    {
        let mut payload: Vec<u8> = Vec::new();
        let taken: usize = if data.len() < self.size {
            data.len()
        } else {
            self.size
        };
        push_bytes(&mut payload, data, 0, taken);
        push_zeros(&mut payload, self.size - taken);
        assert(payload@ =~= padded(data@, self.size as nat));
        Rdma { header: self.header, block_type: self.block_type, data: payload }
    }
}

impl Server {
    /// The packet tuning of the volume is set.
    pub open spec fn wf(self) -> bool {
        self.block_device.tuned()
    }

    /// The server with no write session open.
    pub open spec fn spec_aborted(self) -> Server {
        Server { write_size_left: 0, write_rdma_valid: false, ..self }
    }

    /// The reply to an info request.
    pub open spec fn spec_info_reply(self, req: InfoRequest) -> InfoReply {
        InfoReply {
            header: Header::spec_of(
                Command::InfoReply.spec_raw_value(),
                req.header.spec_command_id(),
                1,
            ),
            sector_size: 512,
            sector_count: self.block_device.sector_count,
        }
    }

    /// A read request takes the server from `self` to `after` and starts
    /// `burst`: the block shift is chosen for the number of sectors, the
    /// cursor moves to the first sector where the volume has it, an open
    /// write session ends, and the burst holds all blocks of the request.
    pub open spec fn read_started(
        self,
        req: ReadWriteRequest,
        after: Server,
        burst: ReadBurst,
    ) -> bool {
        let seeked = req.sector_nr < self.block_device.sector_count;
        &&& after.block_device.tuned()
        &&& after.block_device.block_shift == best_shift(req.sector_count as nat)
        &&& after.block_device.cluster_count == self.block_device.cluster_count
        &&& after.block_device.sector_count == self.block_device.sector_count
        &&& after.block_device.position == if seeked {
            req.sector_nr * 512
        } else {
            self.block_device.position as int
        }
        &&& after.write_size_left == 0
        &&& !after.write_rdma_valid
        &&& burst.seeked == seeked
        &&& burst.header == Header::spec_of(
            Command::ReadRdma.spec_raw_value(),
            req.header.spec_command_id(),
            1,
        )
        &&& burst.block_type == BlockType::spec_of(after.block_device.block_shift, 0, 0)
        &&& burst.blocks_left == req.sector_count * after.block_device.blocks_per_socket
    }

    /// One step of a burst takes the server from `self` to `after` and the
    /// burst from `burst` to `next`. With no blocks left there is no step.
    /// Otherwise the step takes as many blocks as a packet holds, or all
    /// that are left; its data stands at the cursor, which moves on behind
    /// it, or is zeros where the seek failed or the volume ends before; and
    /// the packet number of the burst goes up by one, from 255 to 0.
    pub open spec fn read_stepped(
        self,
        burst: ReadBurst,
        after: Server,
        next: ReadBurst,
        step: Option<ReadStep>,
    ) -> bool {
        let device = self.block_device;
        let count = if burst.blocks_left <= device.blocks_per_packet {
            burst.blocks_left as int
        } else {
            device.blocks_per_packet as int
        };
        let size = count * device.block_size;
        let readable = burst.seeked && device.position + size <= device.spec_volume_size();
        if burst.blocks_left == 0 {
            step is None && after == self && next == burst
        } else {
            &&& step is Some
            &&& step->Some_0.header == burst.header
            &&& step->Some_0.block_type == BlockType::spec_of(
                burst.block_type.spec_block_shift(),
                count as u16,
                burst.block_type.spec_spare(),
            )
            &&& step->Some_0.size == size
            &&& step->Some_0.offset == if readable {
                Some(device.position)
            } else {
                None
            }
            &&& after == Server {
                block_device: VexFat {
                    position: if readable {
                        (device.position + size) as u64
                    } else {
                        device.position
                    },
                    ..device
                },
                ..self
            }
            &&& next.header == Header::spec_of(
                burst.header.spec_command_code(),
                burst.header.spec_command_id(),
                ((burst.header.spec_command_pkt() + 1) % 256) as u8,
            )
            &&& next.block_type == step->Some_0.block_type
            &&& next.blocks_left == burst.blocks_left - count
            &&& next.seeked == burst.seeked
        }
    }

    /// A write request takes the server from `self` to `after`: the
    /// session expects all bytes of the sectors, and the cursor moves to
    /// the first sector where the volume has it.
    pub open spec fn write_started(self, req: ReadWriteRequest, after: Server) -> bool {
        let seeked = req.sector_nr < self.block_device.sector_count;
        &&& after.block_device == VexFat {
            position: if seeked {
                (req.sector_nr * 512) as u64
            } else {
                self.block_device.position
            },
            ..self.block_device
        }
        &&& after.write_size_left == req.sector_count * 512
        &&& after.write_rdma_valid == seeked
    }

    /// What the session still expects after an RDMA packet with this block
    /// type: the packet takes off the bytes it announces, and no more than
    /// are left.
    pub open spec fn spec_write_left(self, block_type: BlockType) -> nat {
        left_after_packet(self.write_size_left as nat, block_type.spec_blocks_size())
    }

    /// The reply to an RDMA packet of a write: none while the session
    /// expects more, else the acknowledgement, whose packet number is the
    /// command id plus one.
    pub open spec fn spec_write_reply(self, header: Header, block_type: BlockType) -> Option<
        WriteReply,
    > {
        if self.spec_write_left(block_type) == 0 {
            Some(
                WriteReply {
                    header: Header::spec_of(
                        Command::WriteDone.spec_raw_value(),
                        header.spec_command_id(),
                        (header.spec_command_id() + 1) as u8,
                    ),
                    result: 0,
                },
            )
        } else {
            None
        }
    }

    /// An RDMA packet of a write takes the server from `self` to `after`.
    pub open spec fn write_continued(self, block_type: BlockType, after: Server) -> bool {
        after == Server {
            write_size_left: self.spec_write_left(block_type) as usize,
            ..self
        }
    }

    /// A server for the volume, with blocks of 128 bytes and no write
    /// session open.
    pub fn new(block_device: VexFat) -> (server: Server)
        ensures
            server.wf(),
            server.block_device.block_shift == 5,
            server.block_device.cluster_count == block_device.cluster_count,
            server.block_device.sector_count == block_device.sector_count,
            server.block_device.position == block_device.position,
            server.write_size_left == 0,
            !server.write_rdma_valid,
    {
        let mut server = Server { block_device, write_size_left: 0, write_rdma_valid: false };
        server.block_device.set_block_shift(5);
        server
    }

    /// Answers an info request with the geometry of the volume. An open
    /// write session ends.
    pub fn handle_cmd_info(&mut self, req: &InfoRequest) -> (reply: InfoReply)
        ensures
            reply == old(self).spec_info_reply(*req),
            *final(self) == old(self).spec_aborted(),
    {
        self.write_size_left = 0;
        self.write_rdma_valid = false;
        let sector_size: u32 = self.block_device.sector_size() as u32;
        InfoReply {
            header: Header::new_with_raw_value(0).with_command(Command::InfoReply).with_command_id(
                req.header.command_id(),
            ).with_command_pkt(1),
            sector_size,
            sector_count: self.block_device.sector_count(),
        }
    }

    /// Starts the answer to a read request.
    pub fn handle_cmd_read(&mut self, req: &ReadWriteRequest) -> (burst: ReadBurst)
        ensures
            old(self).read_started(*req, *final(self), burst),
    {
        self.write_size_left = 0;
        self.write_rdma_valid = false;
        self.block_device.set_block_shift_sectors(req.sector_count);
        let header = Header::new_with_raw_value(0).with_command(Command::ReadRdma).with_command_id(
            req.header.command_id(),
        ).with_command_pkt(1);
        let block_type = BlockType::new_with_raw_value(0).with_block_shift(
            self.block_device.block_shift,
        );
        let seeked: bool = self.block_device.seek(req.sector_nr).is_ok();
        proof {
            lemma_tuned_values(self.block_device);
        }
        let per_sector: u32 = self.block_device.blocks_per_socket as u32;
        assert(req.sector_count * per_sector <= 65535 * 128) by (nonlinear_arith)
            requires
                req.sector_count <= 65535,
                per_sector <= 128,
        ;
        let blocks_left: u32 = (req.sector_count as u32) * per_sector;
        ReadBurst { header, block_type, blocks_left, seeked }
    }

    /// Takes the next packet off a burst, or `None` when the burst is
    /// done.
    pub fn next_read_packet(&mut self, burst: &mut ReadBurst) -> (step: Option<ReadStep>)
        requires
            old(self).wf(),
        ensures
            old(self).read_stepped(*old(burst), *final(self), *final(burst), step),
            final(self).wf(),
            step is Some ==> step->Some_0.size <= RDMA_MAX_PAYLOAD,
            step is Some ==> final(burst).blocks_left < old(burst).blocks_left,
    {
        if burst.blocks_left == 0 {
            return None;
        }
        proof {
            lemma_tuned_values(self.block_device);
        }
        let block_count: u16 = if burst.blocks_left > self.block_device.blocks_per_packet as u32 {
            self.block_device.blocks_per_packet
        } else {
            burst.blocks_left as u16
        };
        assert(block_count * self.block_device.block_size <= RDMA_MAX_PAYLOAD) by (nonlinear_arith)
            requires
                block_count <= self.block_device.blocks_per_packet,
                self.block_device.block_size * self.block_device.blocks_per_packet
                    <= RDMA_MAX_PAYLOAD,
        ;
        let block_type = burst.block_type.with_block_count(block_count);
        let size: usize = (block_count * self.block_device.block_size) as usize;
        let offset: Option<u64> = if burst.seeked {
            match self.block_device.read(size) {
                Ok(start) => Some(start),
                Err(_) => None,
            }
        } else {
            None
        };
        let step = ReadStep { header: burst.header, block_type, size, offset };
        let pkt: u8 = burst.header.command_pkt();
        let next_pkt: u8 = if pkt == 255 {
            0
        } else {
            pkt + 1
        };
        burst.block_type = block_type;
        burst.blocks_left = burst.blocks_left - block_count as u32;
        burst.header = burst.header.with_command_pkt(next_pkt);
        Some(step)
    }

    /// Opens a write session.
    pub fn handle_cmd_write(&mut self, req: &ReadWriteRequest)
        ensures
            old(self).write_started(*req, *final(self)),
    {
        let sector_size: usize = self.block_device.sector_size() as usize;
        assert(req.sector_count * sector_size == req.sector_count * 512) by (nonlinear_arith)
            requires
                sector_size == 512,
        ;
        self.write_size_left = (req.sector_count as usize) * sector_size;
        self.write_rdma_valid = self.block_device.seek(req.sector_nr).is_ok();
    }

    /// Takes an RDMA packet of a write. The data is handed to the volume,
    /// which drops it. Returns the acknowledgement once the session
    /// expects no more.
    pub fn handle_cmd_write_rdma(&mut self, req: &Rdma) -> (reply: Option<WriteReply>)
        ensures
            old(self).write_continued(req.block_type, *final(self)),
            reply == old(self).spec_write_reply(req.header, req.block_type),
            reply is Some <==> final(self).write_size_left == 0,
    {
        let size: usize = req.block_type.blocks_size() as usize;
        if self.write_rdma_valid {
            let taken: usize = if req.data.len() < size {
                req.data.len()
            } else {
                size
            };
            let data = vstd::slice::slice_subrange(req.data.as_slice(), 0, taken);
            let _ = self.block_device.write(data);
        }
        match self.write_size_left.checked_sub(size) {
            Some(new_size) => {
                self.write_size_left = new_size;
            },
            None => {
                self.write_size_left = 0;
            },
        }
        if self.write_size_left == 0 {
            let id: u8 = req.header.command_id();
            Some(
                WriteReply {
                    header: Header::new_with_raw_value(0).with_command(
                        Command::WriteDone,
                    ).with_command_id(id).with_command_pkt(id + 1),
                    result: 0,
                },
            )
        } else {
            None
        }
    }

    /// One datagram takes the server from `self` to `after` with
    /// `outcome`.
    ///
    /// A datagram too short for the packet of its command is dropped, and
    /// so is one with a reserved command code or with a command that only
    /// a server sends; none of them changes the server. An info request is
    /// answered with the bytes of the info reply. A read request starts a
    /// burst. A write request opens a session in silence. An RDMA packet
    /// of a write is answered with the bytes of the acknowledgement once
    /// the session expects no more, and in silence before.
    pub open spec fn ran(self, datagram: Seq<u8>, after: Server, outcome: Outcome) -> bool {
        match Header::spec_parse(datagram) {
            None => outcome == Outcome::Malformed && after == self,
            Some(header) => match header.spec_command() {
                Err(code) => outcome == Outcome::UnknownCommand(code) && after == self,
                Ok(Command::Info) => {
                    &&& outcome is Reply
                    &&& outcome->Reply_0@ == self.spec_info_reply(
                        InfoRequest { header },
                    ).spec_bytes()
                    &&& after == self.spec_aborted()
                },
                Ok(Command::Read) => match ReadWriteRequest::spec_parse(datagram) {
                    None => outcome == Outcome::Malformed && after == self,
                    Some(req) => outcome is Burst && self.read_started(
                        req,
                        after,
                        outcome->Burst_0,
                    ),
                },
                Ok(Command::Write) => match ReadWriteRequest::spec_parse(datagram) {
                    None => outcome == Outcome::Malformed && after == self,
                    Some(req) => outcome == Outcome::Silent && self.write_started(req, after),
                },
                Ok(Command::WriteRdma) => if !Rdma::spec_parses(datagram) {
                    outcome == Outcome::Malformed && after == self
                } else {
                    let block_type = Rdma::spec_parse_block_type(datagram);
                    &&& self.write_continued(block_type, after)
                    &&& match self.spec_write_reply(header, block_type) {
                        Some(reply) => outcome is Reply && outcome->Reply_0@ == reply.spec_bytes(),
                        None => outcome == Outcome::Silent,
                    }
                },
                Ok(command) => outcome == Outcome::UnexpectedCommand(command) && after == self,
            },
        }
    }

    /// Takes one datagram and says what is to be done about it.
    pub fn run(&mut self, datagram: &[u8]) -> (outcome: Outcome)
        ensures
            old(self).ran(datagram@, *final(self), outcome),
    {
        let header = match Header::from_bytes(datagram) {
            Some(header) => header,
            None => {
                return Outcome::Malformed;
            },
        };
        match header.command() {
            Ok(Command::Info) => {
                let req = InfoRequest { header };
                let reply = self.handle_cmd_info(&req);
                Outcome::Reply(reply.to_bytes())
            },
            Ok(Command::Read) => match ReadWriteRequest::from_bytes(datagram) {
                Some(req) => Outcome::Burst(self.handle_cmd_read(&req)),
                None => Outcome::Malformed,
            },
            Ok(Command::Write) => match ReadWriteRequest::from_bytes(datagram) {
                Some(req) => {
                    self.handle_cmd_write(&req);
                    Outcome::Silent
                },
                None => Outcome::Malformed,
            },
            Ok(Command::WriteRdma) => match Rdma::from_bytes(datagram) {
                Some(req) => match self.handle_cmd_write_rdma(&req) {
                    Some(reply) => Outcome::Reply(reply.to_bytes()),
                    None => Outcome::Silent,
                },
                None => Outcome::Malformed,
            },
            Ok(command) => Outcome::UnexpectedCommand(command),
            Err(code) => Outcome::UnknownCommand(code),
        }
    }
}

} // verus!
