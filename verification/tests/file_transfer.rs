use iris_core::file_transfer::{
    mime_guess_from_ext, file_transfer_messages, ChunkAction, FileIdAllocator, IncomingTransfers,
    DEFAULT_CHUNK_SIZE,
};
use iris_core::protocol::TcpMessage;

#[test]
fn mime_types() {
    let cases = [
        (Some("pdf"), "application/pdf"),
        (Some("zip"), "application/zip"),
        (Some("png"), "image/png"),
        (Some("jpg"), "image/jpeg"),
        (Some("jpeg"), "image/jpeg"),
        (Some("mp4"), "video/mp4"),
        (Some("txt"), "text/plain"),
        (Some("doc"), "application/msword"),
        (Some("docx"), "application/msword"),
        (Some("xls"), "application/vnd.ms-excel"),
        (Some("xlsx"), "application/vnd.ms-excel"),
        (Some("PDF"), "application/octet-stream"),
        (Some("rs"), "application/octet-stream"),
        (Some(""), "application/octet-stream"),
        (None, "application/octet-stream"),
    ];
    for (ext, mime) in cases {
        assert_eq!(mime_guess_from_ext(ext), mime);
    }
}

#[test]
fn file_ids_are_sequential() {
    let mut ids = FileIdAllocator::new();
    let a = ids.shareable_file("a.txt".to_string(), 10, Some("txt"));
    let b = ids.shareable_file("b".to_string(), 0, None);
    assert_eq!((a.file_id, b.file_id), (1, 2));
    assert_eq!(a.name, "a.txt");
    assert_eq!(a.size, 10);
    assert_eq!(a.mime_type, "text/plain");
    assert_eq!(b.mime_type, "application/octet-stream");
}

#[test]
fn file_messages_cover_the_file() {
    let chunk = DEFAULT_CHUNK_SIZE as usize;
    let data: Vec<u8> = (0..2 * chunk + 5).map(|i| (i % 253) as u8).collect();
    let msgs = file_transfer_messages(77, &data);
    assert_eq!(msgs.len(), 4);
    let mut rebuilt = Vec::new();
    for (i, m) in msgs[..3].iter().enumerate() {
        match m {
            TcpMessage::FileChunk { file_id, offset, data: d } => {
                assert_eq!(*file_id, 77);
                assert_eq!(*offset, (i * chunk) as u64);
                assert_eq!(*offset as usize, rebuilt.len());
                rebuilt.extend_from_slice(d);
            }
            _ => panic!("expected a chunk"),
        }
    }
    assert_eq!(rebuilt, data);
    assert_eq!(msgs[3], TcpMessage::FileTransferComplete { file_id: 77 });
}

#[test]
fn empty_file_sends_only_completion() {
    assert_eq!(file_transfer_messages(3, &[]), vec![TcpMessage::FileTransferComplete { file_id: 3 }]);
}

#[test]
fn incoming_transfer_progress() {
    let data: Vec<u8> = vec![1; 70000];
    let msgs = file_transfer_messages(5, &data);
    let mut t = IncomingTransfers::new();
    for m in &msgs {
        if let TcpMessage::FileChunk { file_id, data, .. } = m {
            if t.chunk_action(*file_id) == ChunkAction::CreateThenWrite {
                t.begin(*file_id, "photo.png", 70000);
            }
            assert_eq!(t.chunk_action(*file_id), ChunkAction::Write);
            t.record_chunk(*file_id, data.len() as u64);
        }
    }
    let done = t.complete_transfer(5).unwrap();
    assert_eq!(done.file_id, 5);
    assert_eq!(done.file_name, "photo.png");
    assert_eq!(done.total_size, 70000);
    assert_eq!(done.received, 70000);
    assert!(t.complete_transfer(5).is_none());
    assert_eq!(t.chunk_action(5), ChunkAction::CreateThenWrite);
}

#[test]
fn incoming_file_is_created_once_and_keeps_the_first_name() {
    let mut t = IncomingTransfers::new();
    t.begin(9, "other.txt", 3);
    let chunks: [(&str, u64, u64); 3] = [("a.bin", 10, 4), ("b.bin", 99, 5), ("c.bin", 7, 1)];
    let mut actions = Vec::new();
    for (name, size, len) in chunks.iter() {
        let action = t.chunk_action(1);
        actions.push(action);
        if action == ChunkAction::CreateThenWrite {
            t.begin(1, name, *size);
        }
        t.record_chunk(1, *len);
    }
    assert_eq!(actions, vec![ChunkAction::CreateThenWrite, ChunkAction::Write, ChunkAction::Write]);
    assert_eq!(t.received(1), Some(10));
    assert_eq!(t.received(9), Some(0));
    let done = t.complete_transfer(1).unwrap();
    assert_eq!((done.file_name.as_str(), done.total_size), ("a.bin", 10));
}
