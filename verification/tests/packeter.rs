use arena_shooter::packeter::IoErrorKind;
use arena_shooter::packeter::PacketReader;
use arena_shooter::packeter::PacketWriter;

#[test]
fn simple_read_write() {
    let mut pipe: Vec<u8> = Vec::new();
    let mut reader: PacketReader = Default::default();

    PacketWriter::write(&mut pipe, &[1, 2, 3, 4]);
    PacketWriter::write(&mut pipe, &[5, 6, 7, 8]);
    PacketWriter::write(&mut pipe, &[9, 0, 1, 2]);

    reader.feed(&pipe);
    let packets: Vec<Vec<u8>> = reader.read_packets();
    assert_eq!(
        packets,
        vec![vec![1, 2, 3, 4], vec![5, 6, 7, 8], vec![9, 0, 1, 2]]
    );
    assert_eq!(reader.bytes_stored(), 0);
}

#[test]
fn partial_read_write() {
    let mut input_pipe: Vec<u8> = Vec::new();
    let mut reader: PacketReader = Default::default();

    PacketWriter::write(&mut input_pipe, &[1, 2, 3, 4]);
    PacketWriter::write(&mut input_pipe, &[5, 6, 7, 8]);
    PacketWriter::write(&mut input_pipe, &[9, 0, 1, 2]);

    reader.feed(&input_pipe[..10]);
    let packets: Vec<Vec<u8>> = reader.read_packets();
    assert_eq!(packets, vec![vec![1, 2, 3, 4]]);
    assert_eq!(reader.bytes_stored(), 2);

    reader.feed(&input_pipe[10..]);
    let packets: Vec<Vec<u8>> = reader.read_packets();
    assert_eq!(packets, vec![vec![5, 6, 7, 8], vec![9, 0, 1, 2]]);
    assert_eq!(reader.bytes_stored(), 0);
}

#[test]
fn frame_layout_is_length_prefixed_big_endian() {
    let mut pipe: Vec<u8> = Vec::new();
    PacketWriter::write(&mut pipe, &[7, 7, 7]);
    assert_eq!(pipe, vec![0, 0, 0, 3, 7, 7, 7]);
}

#[test]
fn empty_payload_round_trips() {
    let mut pipe: Vec<u8> = Vec::new();
    let mut reader: PacketReader = Default::default();
    PacketWriter::write(&mut pipe, &[]);
    reader.feed(&pipe);
    let packets = reader.read_packets();
    assert_eq!(packets, vec![Vec::<u8>::new()]);
    assert_eq!(reader.bytes_stored(), 0);
}

#[test]
fn partial_header_yields_nothing() {
    let mut reader: PacketReader = Default::default();
    reader.feed(&[0, 0]);
    assert!(reader.next_packet().is_none());
    assert_eq!(reader.bytes_stored(), 2);
}

#[test]
fn chunked_delivery_yields_same_packets() {
    let mut pipe: Vec<u8> = Vec::new();
    PacketWriter::write(&mut pipe, &[10, 20, 30]);
    PacketWriter::write(&mut pipe, &[40]);

    let mut reader: PacketReader = Default::default();
    let mut collected: Vec<Vec<u8>> = Vec::new();
    for chunk in pipe.chunks(3) {
        reader.feed(chunk);
        collected.extend(reader.read_packets());
    }
    assert_eq!(collected, vec![vec![10, 20, 30], vec![40]]);
    assert_eq!(reader.bytes_stored(), 0);
}

#[test]
fn would_block_becomes_default() {
    let r: Result<u32, IoErrorKind> = Err(IoErrorKind::WouldBlock);
    assert_eq!(PacketReader::ignore_would_block(r, 0), Ok(0));
    let r: Result<u32, IoErrorKind> = Err(IoErrorKind::Other);
    assert_eq!(PacketReader::ignore_would_block(r, 0), Err(IoErrorKind::Other));
    let r: Result<u32, IoErrorKind> = Ok(9);
    assert_eq!(PacketReader::ignore_would_block(r, 0), Ok(9));
}
