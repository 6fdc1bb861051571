use udpbd_vexfat::protocol::{
    BlockType, Command, Header, InfoReply, InfoRequest, Rdma, ReadWriteRequest, WriteReply,
};
use udpbd_vexfat::server::{Outcome, ReadBurst, ReadStep, Server};
use udpbd_vexfat::vexfat::VexFat;

fn volume(sector_count: u32) -> VexFat {
    VexFat {
        cluster_count: sector_count / 2048,
        sector_count,
        position: 0,
        block_shift: 0,
        block_size: 0,
        blocks_per_packet: 0,
        blocks_per_socket: 0,
    }
}

fn request(command: Command, id: u8, sector_nr: u32, sector_count: u16) -> ReadWriteRequest {
    ReadWriteRequest {
        header: Header::new_with_raw_value(0).with_command(command).with_command_id(id),
        sector_nr,
        sector_count,
    }
}

fn write_rdma(id: u8, shift: u8, count: u16) -> Rdma {
    let size = count as usize * (4usize << shift);
    Rdma {
        header: Header::new_with_raw_value(0).with_command(Command::WriteRdma).with_command_id(id),
        block_type: BlockType::new_with_raw_value(0).with_block_shift(shift).with_block_count(count),
        data: vec![0xAB; size],
    }
}

/// Drives a burst to its end over a volume whose byte at offset `o` is
/// `o % 251`.
fn drain(server: &mut Server, burst: &mut ReadBurst) -> Vec<(ReadStep, Rdma)> {
    let mut packets = Vec::new();
    while let Some(step) = server.next_read_packet(burst) {
        let data: Vec<u8> = match step.offset {
            Some(offset) => (0..step.size as u64).map(|i| ((offset + i) % 251) as u8).collect(),
            None => Vec::new(),
        };
        packets.push((step, step.rdma(&data)));
    }
    packets
}

#[test]
fn new_server_uses_blocks_of_128_bytes() {
    let server = Server::new(volume(4096));
    assert_eq!(server.block_device.block_shift, 5);
    assert_eq!(server.block_device.block_size, 128);
    assert_eq!(server.block_device.blocks_per_packet, 11);
    assert_eq!(server.block_device.blocks_per_socket, 4);
    assert_eq!(server.block_device.sector_count, 4096);
    assert_eq!(server.write_size_left, 0);
    assert!(!server.write_rdma_valid);
}

#[test]
fn info_is_answered_with_the_geometry() {
    let mut server = Server::new(volume(20480));
    let outcome = server.run(&[0x00, 0x00]);
    let bytes = match outcome {
        Outcome::Reply(bytes) => bytes,
        other => panic!("no reply: {:?}", other),
    };
    assert_eq!(bytes.len(), 10);
    assert_eq!(bytes, vec![0x01, 0x01, 0x00, 0x02, 0x00, 0x00, 0x00, 0x50, 0x00, 0x00]);
    let reply = InfoReply::from_bytes(&bytes).unwrap();
    assert_eq!(reply.header.command(), Ok(Command::InfoReply));
    assert_eq!(reply.header.command_id(), 0);
    assert_eq!(reply.header.command_pkt(), 1);
    assert_eq!(reply.sector_size, 512);
    assert_eq!(reply.sector_count, 20480);
}

#[test]
fn info_reply_carries_the_command_id() {
    let mut server = Server::new(volume(2048));
    let req = InfoRequest {
        header: Header::new_with_raw_value(0).with_command(Command::Info).with_command_id(6),
    };
    let reply = server.handle_cmd_info(&req);
    assert_eq!(reply.header.raw_value(), 0x01C1);
    assert_eq!(reply.sector_size, 512);
    assert_eq!(reply.sector_count, 2048);
}

#[test]
fn an_info_reply_sent_to_the_server_is_dropped() {
    let mut server = Server::new(volume(2048));
    let before = server;
    assert_eq!(server.run(&[0x01, 0x00]), Outcome::UnexpectedCommand(Command::InfoReply));
    assert_eq!(server.run(&[0x03, 0x00]), Outcome::UnexpectedCommand(Command::ReadRdma));
    assert_eq!(server.run(&[0x06, 0x00]), Outcome::UnexpectedCommand(Command::WriteDone));
    assert_eq!(server, before);
}

#[test]
fn reserved_commands_are_dropped() {
    let mut server = Server::new(volume(2048));
    let before = server;
    assert_eq!(server.run(&[0x07, 0x00]), Outcome::UnknownCommand(7));
    assert_eq!(server.run(&[0xFF, 0x00]), Outcome::UnknownCommand(31));
    assert_eq!(server, before);
}

#[test]
fn short_datagrams_are_dropped() {
    let mut server = Server::new(volume(2048));
    let before = server;
    assert_eq!(server.run(&[]), Outcome::Malformed);
    assert_eq!(server.run(&[0x00]), Outcome::Malformed);
    assert_eq!(server.run(&[0x02, 0x00, 0, 0, 0, 0, 1]), Outcome::Malformed);
    assert_eq!(server.run(&[0x04, 0x00, 0, 0, 0, 0, 1]), Outcome::Malformed);
    assert_eq!(server.run(&[0x05, 0x00, 0, 0, 0]), Outcome::Malformed);
    assert_eq!(server, before);
}

#[test]
fn read_of_one_sector_is_one_packet_of_one_block() {
    let mut server = Server::new(volume(2048));
    let outcome = server.run(&request(Command::Read, 3, 0, 1).to_bytes());
    let mut burst = match outcome {
        Outcome::Burst(burst) => burst,
        other => panic!("no burst: {:?}", other),
    };
    assert_eq!(server.block_device.block_shift, 7);
    assert_eq!(server.block_device.blocks_per_packet, 2);
    assert_eq!(server.block_device.blocks_per_socket, 1);
    assert!(burst.seeked);
    assert_eq!(burst.blocks_left, 1);

    let step = server.next_read_packet(&mut burst).unwrap();
    assert_eq!(step.header.command(), Ok(Command::ReadRdma));
    assert_eq!(step.header.command_id(), 3);
    assert_eq!(step.header.command_pkt(), 1);
    assert_eq!(step.block_type.block_shift(), 7);
    assert_eq!(step.block_type.block_count(), 1);
    assert_eq!(step.size, 512);
    assert_eq!(step.offset, Some(0));
    assert_eq!(server.next_read_packet(&mut burst), None);

    let boot_sector: Vec<u8> = (0..512u32).map(|i| (i % 251) as u8).collect();
    let packet = step.rdma(&boot_sector);
    assert_eq!(packet.data, boot_sector);
    let bytes = packet.to_bytes();
    assert_eq!(bytes.len(), 2 + 4 + 512);
    assert_eq!(&bytes[..6], &[0x63, 0x01, 0x17, 0x00, 0x00, 0x00]);
    assert_eq!(&bytes[6..], &boot_sector[..]);
}

#[test]
fn read_burst_covers_the_sectors_in_order() {
    for sectors in [0u16, 1, 2, 3, 5, 6, 11, 14, 64, 255, 600] {
        let mut server = Server::new(volume(4096));
        let mut burst = server.handle_cmd_read(&request(Command::Read, 1, 10, sectors));
        let packets = drain(&mut server, &mut burst);
        let block_size = server.block_device.block_size as usize;
        let per_packet = server.block_device.blocks_per_packet as usize;
        let mut payload: Vec<u8> = Vec::new();
        for (k, (step, packet)) in packets.iter().enumerate() {
            assert_eq!(step.header.command(), Ok(Command::ReadRdma));
            assert_eq!(step.header.command_id(), 1);
            assert_eq!(step.header.command_pkt(), ((k + 1) % 256) as u8);
            assert_eq!(step.block_type.block_shift(), server.block_device.block_shift);
            assert_eq!(step.size, step.block_type.block_count() as usize * block_size);
            assert_eq!(step.block_type.blocks_size() as usize, step.size);
            assert_eq!(step.offset, Some(10 * 512 + payload.len() as u64));
            if k + 1 < packets.len() {
                assert_eq!(step.block_type.block_count() as usize, per_packet);
            }
            assert_eq!(packet.to_bytes().len(), 6 + step.size);
            assert_eq!(packet.to_bytes().len() % 4, 2);
            payload.extend_from_slice(&packet.data);
        }
        let expected: Vec<u8> =
            (0..sectors as u64 * 512).map(|i| ((10 * 512 + i) % 251) as u8).collect();
        assert_eq!(payload, expected);
        assert_eq!(server.block_device.position, (10 + sectors as u64) * 512);
        let cap = (per_packet * block_size) as u64;
        assert_eq!(packets.len() as u64, (sectors as u64 * 512 + cap - 1) / cap);
    }
}

#[test]
fn read_packet_sizes_at_shift_six() {
    let mut server = Server::new(volume(4096));
    let mut burst = server.handle_cmd_read(&request(Command::Read, 0, 0, 5));
    assert_eq!(server.block_device.block_shift, 6);
    assert_eq!(burst.blocks_left, 10);
    let packets = drain(&mut server, &mut burst);
    let sizes: Vec<usize> = packets.iter().map(|(step, _)| step.size).collect();
    assert_eq!(sizes, vec![1280, 1280]);
    let counts: Vec<u16> = packets.iter().map(|(s, _)| s.block_type.block_count()).collect();
    assert_eq!(counts, vec![5, 5]);
    let offsets: Vec<Option<u64>> = packets.iter().map(|(step, _)| step.offset).collect();
    assert_eq!(offsets, vec![Some(0), Some(1280)]);
}

#[test]
fn read_with_a_failed_seek_sends_zeros_of_the_same_shape() {
    let mut server = Server::new(volume(2048));
    let mut burst = server.handle_cmd_read(&request(Command::Read, 2, 2048, 3));
    assert!(!burst.seeked);
    assert_eq!(server.block_device.position, 0);
    let packets = drain(&mut server, &mut burst);
    let sizes: Vec<usize> = packets.iter().map(|(step, _)| step.size).collect();
    assert_eq!(sizes, vec![1024, 512]);
    for (step, packet) in &packets {
        assert_eq!(step.offset, None);
        assert_eq!(packet.data, vec![0u8; step.size]);
    }
    assert_eq!(server.block_device.position, 0);
}

#[test]
fn read_that_runs_past_the_end_sends_zeros_for_the_rest() {
    let mut server = Server::new(volume(2048));
    let mut burst = server.handle_cmd_read(&request(Command::Read, 2, 2046, 3));
    assert!(burst.seeked);
    let packets = drain(&mut server, &mut burst);
    assert_eq!(packets.len(), 2);
    assert_eq!(packets[0].0.offset, Some(2046 * 512));
    assert_eq!(packets[0].0.size, 1024);
    assert_eq!(packets[1].0.offset, None);
    assert_eq!(packets[1].1.data, vec![0u8; 512]);
    assert_eq!(server.block_device.position, 2048 * 512);
}

#[test]
fn read_packet_number_wraps_after_255() {
    let mut server = Server::new(volume(4096));
    let mut burst = server.handle_cmd_read(&request(Command::Read, 7, 0, 1000));
    let packets = drain(&mut server, &mut burst);
    assert_eq!(packets.len(), 356);
    assert_eq!(packets[254].0.header.command_pkt(), 255);
    assert_eq!(packets[255].0.header.command_pkt(), 0);
    assert_eq!(packets[256].0.header.command_pkt(), 1);
    assert_eq!(packets[355].0.header.command_pkt(), 100);
    assert_eq!(packets[355].0.header.command_id(), 7);
}

#[test]
fn short_data_is_padded_with_zeros() {
    let step = ReadStep {
        header: Header::new_with_raw_value(0x0103),
        block_type: BlockType::new_with_raw_value(0x15),
        size: 8,
        offset: Some(0),
    };
    assert_eq!(step.rdma(&[1, 2, 3]).data, vec![1, 2, 3, 0, 0, 0, 0, 0]);
    assert_eq!(step.rdma(&[9; 12]).data, vec![9; 8]);
    assert_eq!(step.rdma(&[]).data, vec![0; 8]);
}

#[test]
fn write_session_of_two_sectors() {
    let mut server = Server::new(volume(4096));
    let outcome = server.run(&request(Command::Write, 4, 100, 2).to_bytes());
    assert_eq!(outcome, Outcome::Silent);
    assert_eq!(server.write_size_left, 1024);
    assert!(server.write_rdma_valid);
    assert_eq!(server.block_device.position, 100 * 512);

    assert_eq!(server.run(&write_rdma(4, 7, 1).to_bytes()), Outcome::Silent);
    assert_eq!(server.write_size_left, 512);

    let outcome = server.run(&write_rdma(4, 7, 1).to_bytes());
    let expected = WriteReply {
        header: Header::new_with_raw_value(0)
            .with_command(Command::WriteDone)
            .with_command_id(4)
            .with_command_pkt(5),
        result: 0,
    };
    assert_eq!(outcome, Outcome::Reply(expected.to_bytes()));
    assert_eq!(expected.to_bytes(), vec![0x86, 0x05, 0, 0, 0, 0]);
    assert_eq!(server.write_size_left, 0);

    // More packets leave nothing below zero, and are acknowledged again.
    let outcome = server.run(&write_rdma(4, 7, 1).to_bytes());
    assert_eq!(outcome, Outcome::Reply(expected.to_bytes()));
    assert_eq!(server.write_size_left, 0);
}

#[test]
fn write_size_left_saturates_at_zero() {
    let mut server = Server::new(volume(4096));
    server.handle_cmd_write(&request(Command::Write, 1, 0, 1));
    assert_eq!(server.write_size_left, 512);
    let reply = server.handle_cmd_write_rdma(&write_rdma(1, 5, 11));
    assert_eq!(server.write_size_left, 0);
    assert_eq!(reply.map(|r| r.result), Some(0));
}

#[test]
fn write_counts_the_announced_bytes_of_each_packet() {
    let mut server = Server::new(volume(4096));
    server.handle_cmd_write(&request(Command::Write, 2, 8, 3));
    assert_eq!(server.write_size_left, 1536);
    assert_eq!(server.handle_cmd_write_rdma(&write_rdma(2, 3, 45)), None);
    assert_eq!(server.write_size_left, 96);
    assert_eq!(server.handle_cmd_write_rdma(&write_rdma(2, 3, 2)), None);
    assert_eq!(server.write_size_left, 32);
    let reply = server.handle_cmd_write_rdma(&write_rdma(2, 3, 1)).unwrap();
    assert_eq!(reply.header.command(), Ok(Command::WriteDone));
    assert_eq!(reply.header.command_id(), 2);
    assert_eq!(reply.header.command_pkt(), 3);
    assert_eq!(reply.result, 0);
}

#[test]
fn write_with_a_failed_seek_is_still_acknowledged() {
    let mut server = Server::new(volume(2048));
    server.handle_cmd_write(&request(Command::Write, 0, 5000, 1));
    assert!(!server.write_rdma_valid);
    assert_eq!(server.write_size_left, 512);
    assert_eq!(server.block_device.position, 0);
    let reply = server.handle_cmd_write_rdma(&write_rdma(0, 7, 1)).unwrap();
    assert_eq!(reply.header.raw_value(), 0x0106);
}

#[test]
fn write_does_not_move_the_cursor_or_the_tuning() {
    let mut server = Server::new(volume(2048));
    server.handle_cmd_write(&request(Command::Write, 0, 9, 2));
    let device = server.block_device;
    server.handle_cmd_write_rdma(&write_rdma(0, 7, 1));
    assert_eq!(server.block_device, device);
}

#[test]
fn another_command_ends_an_open_write_session() {
    let mut server = Server::new(volume(2048));
    server.handle_cmd_write(&request(Command::Write, 0, 0, 4));
    assert_eq!(server.write_size_left, 2048);
    server.run(&[0x00, 0x00]);
    assert_eq!(server.write_size_left, 0);
    assert!(!server.write_rdma_valid);

    server.handle_cmd_write(&request(Command::Write, 0, 0, 4));
    server.run(&request(Command::Read, 1, 0, 1).to_bytes());
    assert_eq!(server.write_size_left, 0);
    assert!(!server.write_rdma_valid);

    server.handle_cmd_write(&request(Command::Write, 0, 0, 4));
    server.run(&[0x1F, 0x00]);
    assert_eq!(server.write_size_left, 2048);
}

#[test]
fn write_rdma_announcing_more_than_it_carries() {
    let mut server = Server::new(volume(2048));
    server.handle_cmd_write(&request(Command::Write, 0, 0, 200));
    let packet = Rdma {
        header: Header::new_with_raw_value(0).with_command(Command::WriteRdma),
        block_type: BlockType::new_with_raw_value(0).with_block_shift(7).with_block_count(100),
        data: vec![1, 2, 3],
    };
    assert_eq!(server.run(&packet.to_bytes()), Outcome::Silent);
    assert_eq!(server.write_size_left, 200 * 512 - 100 * 512);
}
