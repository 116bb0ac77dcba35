use iris_core::protocol::{FrameChunk, FrameEncoding};
use iris_core::transport::ports::{candidate_ports, exhausted_port_range, startup_ports, MAX_PORT_RETRIES};
use iris_core::transport::tcp::{after_length_prefix, continue_after_payload, ReadStep};
use iris_core::transport::udp::{frame_chunk_count, split_frame, FrameAssembler, MAX_CHUNK_SIZE};

fn sample(len: usize) -> Vec<u8> {
    (0..len).map(|i| (i * 7 % 256) as u8).collect()
}

#[test]
fn chunk_counts() {
    assert_eq!(frame_chunk_count(0), 0);
    assert_eq!(frame_chunk_count(1), 1);
    assert_eq!(frame_chunk_count(1300), 1);
    assert_eq!(frame_chunk_count(1301), 2);
    assert_eq!(frame_chunk_count(2600), 2);
}

#[test]
fn split_frame_fields_and_sizes() {
    let data = sample(2601);
    let chunks = split_frame(42, 640, 480, FrameEncoding::Lz4, &data);
    assert_eq!(chunks.len(), 3);
    let sizes: Vec<usize> = chunks.iter().map(|c| c.data.len()).collect();
    assert_eq!(sizes, vec![MAX_CHUNK_SIZE, MAX_CHUNK_SIZE, 1]);
    for (i, c) in chunks.iter().enumerate() {
        assert_eq!(c.frame_id, 42);
        assert_eq!(c.total_chunks, 3);
        assert_eq!(c.chunk_index, i as u32);
        assert_eq!((c.width, c.height), (640, 480));
        assert_eq!(c.encoding, FrameEncoding::Lz4);
    }
    let joined: Vec<u8> = chunks.iter().flat_map(|c| c.data.clone()).collect();
    assert_eq!(joined, data);
    assert!(split_frame(1, 1, 1, FrameEncoding::Jpeg, &[]).is_empty());
}

#[test]
fn reassembly_in_any_order_with_repeats() {
    let data = sample(5000);
    let chunks = split_frame(9, 100, 50, FrameEncoding::Jpeg, &data);
    assert_eq!(chunks.len(), 4);
    let mut assembler = FrameAssembler::new(&chunks[2]);
    assert!(!assembler.is_complete());
    assembler.add_chunk(&chunks[0]);
    assembler.add_chunk(&chunks[2]);
    let foreign = split_frame(10, 100, 50, FrameEncoding::Jpeg, &sample(1300));
    assembler.add_chunk(&foreign[0]);
    assembler.add_chunk(&chunks[3]);
    assert!(!assembler.is_complete());
    assembler.add_chunk(&chunks[1]);
    assert!(assembler.is_complete());
    assert_eq!(assembler.frame_id(), 9);
    assert_eq!(assembler.dimensions(), (100, 50));
    assert_eq!(assembler.encoding(), FrameEncoding::Jpeg);
    assert_eq!(assembler.assemble(), Some(data));
}

#[test]
fn repeated_chunk_keeps_first_copy() {
    let first = FrameChunk {
        frame_id: 1,
        total_chunks: 2,
        chunk_index: 0,
        width: 2,
        height: 2,
        encoding: FrameEncoding::RawRgba,
        data: vec![1, 2],
    };
    let mut assembler = FrameAssembler::new(&first);
    let mut other = first.clone();
    other.data = vec![9, 9, 9];
    assembler.add_chunk(&other);
    let mut second = first.clone();
    second.chunk_index = 1;
    second.data = vec![3];
    assembler.add_chunk(&second);
    assert_eq!(assembler.assemble(), Some(vec![1, 2, 3]));
}

#[test]
fn incomplete_frame_does_not_assemble() {
    let data = sample(3000);
    let chunks = split_frame(5, 1, 1, FrameEncoding::RawRgba, &data);
    let mut assembler = FrameAssembler::new(&chunks[0]);
    assembler.add_chunk(&chunks[2]);
    assert!(!assembler.is_complete());
    assert_eq!(assembler.assemble(), None);
}

#[test]
fn out_of_range_chunk_is_ignored() {
    let chunk = FrameChunk {
        frame_id: 3,
        total_chunks: 1,
        chunk_index: 5,
        width: 1,
        height: 1,
        encoding: FrameEncoding::Jpeg,
        data: vec![1],
    };
    let assembler = FrameAssembler::new(&chunk);
    assert!(!assembler.is_complete());
    assert_eq!(assembler.assemble(), None);
}

#[test]
fn zero_chunk_frame_is_complete_and_empty() {
    let chunk = FrameChunk {
        frame_id: 3,
        total_chunks: 0,
        chunk_index: 0,
        width: 1,
        height: 1,
        encoding: FrameEncoding::Jpeg,
        data: vec![1, 2],
    };
    let assembler = FrameAssembler::new(&chunk);
    assert!(assembler.is_complete());
    assert_eq!(assembler.assemble(), Some(vec![]));
}

#[test]
fn port_candidates() {
    let ports = candidate_ports(21000);
    assert_eq!(ports.len(), MAX_PORT_RETRIES as usize);
    assert_eq!(ports[0], 21000);
    assert_eq!(ports[99], 21099);
    let near_top = candidate_ports(65500);
    assert_eq!(near_top.len(), 36);
    assert_eq!(*near_top.last().unwrap(), 65535);
    assert_eq!(candidate_ports(65535), vec![65535]);
    assert_eq!(exhausted_port_range(21001), (21001, 21100));
}

#[test]
fn startup_port_plan() {
    assert_eq!(startup_ports(None), (21000, 21001));
    assert_eq!(startup_ports(Some(30000)), (30001, 30000));
    assert_eq!(startup_ports(Some(0)), (1, 0));
}

#[test]
fn tcp_read_loop_steps() {
    assert!(matches!(after_length_prefix(None), ReadStep::Closed));
    assert!(matches!(after_length_prefix(Some([0, 0, 1, 2])), ReadStep::ReadPayload(258)));
    assert!(matches!(after_length_prefix(Some([0x06, 0x40, 0, 0])), ReadStep::ReadPayload(104857600)));
    assert!(matches!(after_length_prefix(Some([0x06, 0x40, 0, 1])), ReadStep::TooLarge(104857601)));
    assert!(continue_after_payload(true, true));
    assert!(continue_after_payload(false, false));
    assert!(!continue_after_payload(true, false));
}

#[test]
fn assembler_keeps_first_chunk_dimensions_and_stays_complete() {
    let data = sample(2 * MAX_CHUNK_SIZE);
    let chunks = split_frame(3, 640, 480, FrameEncoding::Lz4, &data);
    let mut a = FrameAssembler::new(&chunks[1]);
    let mut other = chunks[0].clone();
    other.width = 1;
    other.height = 2;
    other.frame_id = 4;
    a.add_chunk(&other);
    assert!(!a.is_complete());
    a.add_chunk(&chunks[0]);
    assert!(a.is_complete());
    a.add_chunk(&chunks[0]);
    assert!(a.is_complete());
    assert_eq!(a.dimensions(), (640, 480));
    assert_eq!(a.assemble(), Some(data));
}
