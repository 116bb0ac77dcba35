//! File-transfer bookkeeping: offering files, splitting a file into chunk
//! messages, and tracking incoming transfers.
use crate::discovery::same_text;
use crate::protocol::{FileInfo, TcpMessage};
use std::collections::HashMap;
use vstd::prelude::*;
use vstd::slice::{slice_subrange, slice_to_vec};

verus! {

broadcast use vstd::std_specs::hash::group_hash_axioms;

/// Size of one file chunk (64 KiB).
pub const DEFAULT_CHUNK_SIZE: u32 = 65536;

// ─── MIME types ────────────────────────────────────────────────────

/// The MIME type of a file with the given extension.
pub open spec fn mime_for_extension(ext: Option<Seq<char>>) -> Seq<char> {
    match ext {
        Some(e) => if e == "pdf"@ {
            "application/pdf"@
        } else if e == "zip"@ {
            "application/zip"@
        } else if e == "png"@ {
            "image/png"@
        } else if e == "jpg"@ || e == "jpeg"@ {
            "image/jpeg"@
        } else if e == "mp4"@ {
            "video/mp4"@
        } else if e == "txt"@ {
            "text/plain"@
        } else if e == "doc"@ || e == "docx"@ {
            "application/msword"@
        } else if e == "xls"@ || e == "xlsx"@ {
            "application/vnd.ms-excel"@
        } else {
            "application/octet-stream"@
        },
        None => "application/octet-stream"@,
    }
}

/// The characters of an optional string.
pub open spec fn opt_str_view(s: Option<&str>) -> Option<Seq<char>> {
    match s {
        Some(t) => Some(t@),
        None => None,
    }
}

/// Guesses a MIME type from a file extension (as `Path::extension` gives it,
/// when valid UTF-8); unknown or missing extensions give
/// `application/octet-stream`. Matching is case-sensitive.
pub fn mime_guess_from_ext(ext: Option<&str>) -> (mime: String)
    ensures
        mime@ == mime_for_extension(opt_str_view(ext)),
{
    match ext {
        Some(e) => if same_text(e, "pdf") {
            "application/pdf".to_owned()
        } else if same_text(e, "zip") {
            "application/zip".to_owned()
        } else if same_text(e, "png") {
            "image/png".to_owned()
        } else if same_text(e, "jpg") || same_text(e, "jpeg") {
            "image/jpeg".to_owned()
        } else if same_text(e, "mp4") {
            "video/mp4".to_owned()
        } else if same_text(e, "txt") {
            "text/plain".to_owned()
        } else if same_text(e, "doc") || same_text(e, "docx") {
            "application/msword".to_owned()
        } else if same_text(e, "xls") || same_text(e, "xlsx") {
            "application/vnd.ms-excel".to_owned()
        } else {
            "application/octet-stream".to_owned()
        },
        None => "application/octet-stream".to_owned(),
    }
}

/// Law: each MIME type in the table is given for exactly its own
/// extensions (`image/png` for `png` only, `image/jpeg` for `jpg` and `jpeg`
/// only, and so on), and every other extension, or none, gives
/// `application/octet-stream`.
pub proof fn lemma_mime_table(ext: Option<Seq<char>>)
    ensures
        (mime_for_extension(ext) == "application/pdf"@) <==> ext == Some("pdf"@),
        (mime_for_extension(ext) == "application/zip"@) <==> ext == Some("zip"@),
        (mime_for_extension(ext) == "image/png"@) <==> ext == Some("png"@),
        (mime_for_extension(ext) == "image/jpeg"@) <==> (ext == Some("jpg"@) || ext == Some("jpeg"@)),
        (mime_for_extension(ext) == "video/mp4"@) <==> ext == Some("mp4"@),
        (mime_for_extension(ext) == "text/plain"@) <==> ext == Some("txt"@),
        (mime_for_extension(ext) == "application/msword"@) <==> (ext == Some("doc"@) || ext == Some("docx"@)),
        (mime_for_extension(ext) == "application/vnd.ms-excel"@) <==> (ext == Some("xls"@) || ext
            == Some("xlsx"@)),
        (mime_for_extension(ext) == "application/octet-stream"@) <==> !(ext == Some("pdf"@) || ext
            == Some("zip"@) || ext == Some("png"@) || ext == Some("jpg"@) || ext == Some("jpeg"@)
            || ext == Some("mp4"@) || ext == Some("txt"@) || ext == Some("doc"@) || ext == Some(
            "docx"@,
        ) || ext == Some("xls"@) || ext == Some("xlsx"@)),
{
    reveal_strlit("application/pdf");
    reveal_strlit("application/zip");
    reveal_strlit("image/png");
    reveal_strlit("image/jpeg");
    reveal_strlit("video/mp4");
    reveal_strlit("text/plain");
    reveal_strlit("application/msword");
    reveal_strlit("application/vnd.ms-excel");
    reveal_strlit("application/octet-stream");
    reveal_strlit("pdf");
    reveal_strlit("zip");
    reveal_strlit("png");
    reveal_strlit("jpg");
    reveal_strlit("jpeg");
    reveal_strlit("mp4");
    reveal_strlit("txt");
    reveal_strlit("doc");
    reveal_strlit("docx");
    reveal_strlit("xls");
    reveal_strlit("xlsx");
    let m = mime_for_extension(ext);
    let texts = seq![
        "application/pdf"@,
        "application/zip"@,
        "image/png"@,
        "image/jpeg"@,
        "video/mp4"@,
        "text/plain"@,
        "application/msword"@,
        "application/vnd.ms-excel"@,
        "application/octet-stream"@,
    ];
    assert forall|i: int, j: int| 0 <= i < j < 9 implies #[trigger] texts[i] != #[trigger] texts[j] by {
        if texts[i] == texts[j] {
            assert(texts[i].len() == texts[j].len());
            assert(texts[i][0] == texts[j][0]);
            assert(texts[i][1] == texts[j][1]);
            assert(texts[i][texts[i].len() - 1] == texts[j][texts[j].len() - 1]);
        }
    }
    let exts = seq![
        "pdf"@,
        "zip"@,
        "png"@,
        "jpg"@,
        "jpeg"@,
        "mp4"@,
        "txt"@,
        "doc"@,
        "docx"@,
        "xls"@,
        "xlsx"@,
    ];
    assert forall|i: int, j: int| 0 <= i < j < 11 implies #[trigger] exts[i] != #[trigger] exts[j] by {
        if exts[i] == exts[j] {
            assert(exts[i].len() == exts[j].len());
            assert(exts[i][0] == exts[j][0]);
            assert(exts[i][1] == exts[j][1]);
            assert(exts[i][2] == exts[j][2]);
        }
    }
    assert(exts[0] == "pdf"@ && exts[1] == "zip"@ && exts[2] == "png"@ && exts[3] == "jpg"@);
    assert(exts[4] == "jpeg"@ && exts[5] == "mp4"@ && exts[6] == "txt"@ && exts[7] == "doc"@);
    assert(exts[8] == "docx"@ && exts[9] == "xls"@ && exts[10] == "xlsx"@);
    assert(texts[0] == "application/pdf"@);
    assert(texts[1] == "application/zip"@);
    assert(texts[2] == "image/png"@);
    assert(texts[3] == "image/jpeg"@);
    assert(texts[4] == "video/mp4"@);
    assert(texts[5] == "text/plain"@);
    assert(texts[6] == "application/msword"@);
    assert(texts[7] == "application/vnd.ms-excel"@);
    assert(texts[8] == "application/octet-stream"@);
}

// ─── Offering files ────────────────────────────────────────────────

/// Hands out the ids of offered files, one after another from 1.
pub struct FileIdAllocator {
    next: u64,
}

impl FileIdAllocator {
    /// The id the next offered file receives.
    pub closed spec fn next_id(&self) -> u64 {
        self.next
    }

    /// An allocator whose first id is 1.
    pub fn new() -> (a: FileIdAllocator)
        ensures
            a.next_id() == 1,
    {
        FileIdAllocator { next: 1 }
    }

    /// The id the next offered file receives.
    pub fn peek_next_id(&self) -> (id: u64)
        ensures
            id == self.next_id(),
    {
        self.next
    }

    /// Describes a shareable file, giving it the next id.
    pub fn shareable_file(&mut self, name: String, size: u64, ext: Option<&str>) -> (info: FileInfo)
        requires
            old(self).next_id() < u64::MAX,
        ensures
            info.file_id == old(self).next_id(),
            final(self).next_id() == old(self).next_id() + 1,
            info.name == name,
            info.size == size,
            info.mime_type@ == mime_for_extension(opt_str_view(ext)),
    {
        let id = self.next;
        self.next = self.next + 1;
        FileInfo { file_id: id, name, size, mime_type: mime_guess_from_ext(ext) }
    }
}

// ─── Sending a file ────────────────────────────────────────────────

/// Number of 64 KiB chunks a file of `len` bytes is sent in.
pub open spec fn file_chunk_count(len: nat) -> nat {
    ((len + 65535) / 65536) as nat
}

/// The bytes of file chunk `i`.
pub open spec fn file_chunk_bytes(data: Seq<u8>, i: int) -> Seq<u8> {
    let end = if (i + 1) * 65536 <= data.len() {
        (i + 1) * 65536
    } else {
        data.len() as int
    };
    data.subrange(i * 65536, end)
}

/// The messages that send a file: one `FileChunk` per 64 KiB of data, each
/// with its byte offset, then `FileTransferComplete`.
pub fn file_transfer_messages(file_id: u64, data: &[u8]) -> (msgs: Vec<TcpMessage>)
    ensures
        msgs@.len() == file_chunk_count(data@.len()) + 1,
        forall|i: int|
            #![trigger msgs@[i]]
            0 <= i < file_chunk_count(data@.len()) ==> (msgs@[i] matches TcpMessage::FileChunk {
                file_id: f,
                offset: o,
                data: d,
            } && f == file_id && o == i * 65536 && d@ == file_chunk_bytes(data@, i)),
        msgs@.last() == (TcpMessage::FileTransferComplete { file_id }),
{
    let mut msgs: Vec<TcpMessage> = Vec::new();
    let ghost n = file_chunk_count(data@.len());
    let mut start: usize = 0;
    let mut offset: u64 = 0;
    let mut i: usize = 0;
    while start < data.len()
        invariant
            start == (if i * 65536 <= data@.len() { i * 65536 } else { data@.len() as int }),
            offset == start,
            i <= n,
            start < data@.len() ==> i < n,
            start >= data@.len() ==> i == n,
            n == file_chunk_count(data@.len()),
            msgs@.len() == i,
            forall|k: int|
                #![trigger msgs@[k]]
                0 <= k < i ==> (msgs@[k] matches TcpMessage::FileChunk { file_id: f, offset: o, data: d }
                    && f == file_id && o == k * 65536 && d@ == file_chunk_bytes(data@, k)),
        decreases data@.len() - start,
    {
        let end: usize = if data.len() - start >= 65536 {
            start + 65536
        } else {
            data.len()
        };
        let bytes = slice_to_vec(slice_subrange(data, start, end));
        msgs.push(TcpMessage::FileChunk { file_id, offset, data: bytes });
        proof {
            if end < data@.len() {
                assert(i + 1 < n) by (nonlinear_arith)
                    requires
                        start == i * 65536,
                        end == start + 65536,
                        end < data@.len(),
                        n == (data@.len() + 65535) / 65536,
                ;
            } else {
                assert(i + 1 == n) by (nonlinear_arith)
                    requires
                        start == i * 65536,
                        start < data@.len(),
                        end >= data@.len(),
                        end <= start + 65536,
                        n == (data@.len() + 65535) / 65536,
                ;
            }
        }
        offset = offset + (end - start) as u64;
        start = end;
        i = i + 1;
    }
    if data.len() == 0 {
        assert(n == 0);
    }
    msgs.push(TcpMessage::FileTransferComplete { file_id });
    msgs
}

/// The bytes of the first `m` chunks of a file, in order.
pub open spec fn concat_file_chunks(data: Seq<u8>, m: nat) -> Seq<u8>
    decreases m,
{
    if m == 0 {
        Seq::empty()
    } else {
        concat_file_chunks(data, (m - 1) as nat) + file_chunk_bytes(data, m - 1)
    }
}

proof fn lemma_concat_file_chunks_prefix(data: Seq<u8>, m: nat)
    requires
        m <= file_chunk_count(data.len()),
    ensures
        concat_file_chunks(data, m) == data.subrange(
            0,
            if m * 65536 <= data.len() { (m * 65536) as int } else { data.len() as int },
        ),
    decreases m,
{
    if m == 0 {
        assert(data.subrange(0, 0) =~= Seq::<u8>::empty());
    } else {
        let p = (m - 1) as nat;
        lemma_concat_file_chunks_prefix(data, p);
        assert(p * 65536 < data.len()) by (nonlinear_arith)
            requires
                p + 1 <= (data.len() + 65535) / 65536,
        ;
        let end = if m * 65536 <= data.len() { (m * 65536) as int } else { data.len() as int };
        assert(data.subrange(0, (p * 65536) as int) + data.subrange((p * 65536) as int, end)
            =~= data.subrange(0, end));
    }
}

/// Law: the chunks of a file, written one after another as the receiver
/// does, give back the file; so the bytes received once every chunk has
/// arrived equal the file's size.
pub proof fn lemma_file_chunks_rebuild(data: Seq<u8>)
    ensures
        concat_file_chunks(data, file_chunk_count(data.len())) == data,
        concat_file_chunks(data, file_chunk_count(data.len())).len() == data.len(),
{
    let n = file_chunk_count(data.len());
    lemma_concat_file_chunks_prefix(data, n);
    assert(n * 65536 >= data.len()) by (nonlinear_arith)
        requires
            n == (data.len() + 65535) / 65536,
    ;
    assert(data.subrange(0, data.len() as int) =~= data);
}

/// Law: each chunk's offset is the number of bytes sent before it.
pub proof fn lemma_file_chunk_offsets(data: Seq<u8>, i: nat)
    requires
        i < file_chunk_count(data.len()),
    ensures
        concat_file_chunks(data, i).len() == i * 65536,
{
    lemma_concat_file_chunks_prefix(data, i);
    assert(i * 65536 <= data.len()) by (nonlinear_arith)
        requires
            i + 1 <= (data.len() + 65535) / 65536,
    ;
}

// ─── Receiving files ───────────────────────────────────────────────

/// Progress of one incoming file.
pub struct TransferProgress {
    pub file_id: u64,
    pub file_name: String,
    pub total_size: u64,
    pub received: u64,
}

/// The abstract progress of an incoming file.
pub struct ProgressView {
    pub file_name: Seq<char>,
    pub total_size: u64,
    pub received: u64,
}

/// The abstract progress of a tracked transfer.
pub open spec fn progress_view(p: TransferProgress) -> ProgressView {
    ProgressView { file_name: p.file_name@, total_size: p.total_size, received: p.received }
}

/// What a receiver must do with an incoming chunk.
#[derive(Clone, Copy, Debug, PartialEq, Eq, Structural)]
pub enum ChunkAction {
    /// First chunk of this file: create the file in the download directory,
    /// `begin` tracking it, then write the chunk.
    CreateThenWrite,
    /// The file is already open: write the chunk.
    Write,
}

/// The action `chunk_action` reports for a chunk of `file_id` when the
/// transfers in progress are `t`.
pub open spec fn action_for(t: Map<u64, ProgressView>, file_id: u64) -> ChunkAction {
    if t.contains_key(file_id) {
        ChunkAction::Write
    } else {
        ChunkAction::CreateThenWrite
    }
}

/// The transfers after `begin`: `file_id` tracked with nothing received.
pub open spec fn table_after_begin(
    t: Map<u64, ProgressView>,
    file_id: u64,
    file_name: Seq<char>,
    total_size: u64,
) -> Map<u64, ProgressView> {
    t.insert(file_id, ProgressView { file_name, total_size, received: 0 })
}

/// The transfers after `record_chunk`: `len` more bytes of `file_id`.
pub open spec fn table_after_record(t: Map<u64, ProgressView>, file_id: u64, len: u64) -> Map<
    u64,
    ProgressView,
> {
    t.insert(file_id, ProgressView { received: (t[file_id].received + len) as u64, ..t[file_id] })
}

/// The incoming transfers in progress, by file id.
pub struct IncomingTransfers {
    transfers: HashMap<u64, TransferProgress>,
}

impl View for IncomingTransfers {
    type V = Map<u64, ProgressView>;

    closed spec fn view(&self) -> Map<u64, ProgressView> {
        self.transfers@.map_values(|p: TransferProgress| progress_view(p))
    }
}

/// The entries of a transfer table each record their own id.
pub open spec fn entries_keyed(m: Map<u64, TransferProgress>) -> bool {
    forall|k: u64| #[trigger] m.contains_key(k) ==> m[k].file_id == k
}

impl IncomingTransfers {
    /// Every entry records its own id.
    #[verifier::type_invariant]
    spec fn keyed(&self) -> bool {
        entries_keyed(self.transfers@)
    }

    /// No transfer in progress.
    pub fn new() -> (t: IncomingTransfers)
        ensures
            t@ == Map::<u64, ProgressView>::empty(),
    {
        let transfers: HashMap<u64, TransferProgress> = HashMap::new();
        assert(entries_keyed(transfers@));
        let t = IncomingTransfers { transfers };
        assert(t@ =~= Map::<u64, ProgressView>::empty());
        t
    }

    /// What to do with a chunk of `file_id`: create the file first unless a
    /// transfer of it is in progress.
    pub fn chunk_action(&self, file_id: u64) -> (a: ChunkAction)
        ensures
            a == action_for(self@, file_id),
    {
        if self.transfers.contains_key(&file_id) {
            ChunkAction::Write
        } else {
            ChunkAction::CreateThenWrite
        }
    }

    /// The bytes received so far of `file_id`, if it is in progress.
    pub fn received(&self, file_id: u64) -> (r: Option<u64>)
        ensures
            match r {
                Some(n) => self@.contains_key(file_id) && n == self@[file_id].received,
                None => !self@.contains_key(file_id),
            },
    {
        match self.transfers.get(&file_id) {
            Some(p) => Some(p.received),
            None => None,
        }
    }

    /// Starts tracking a file whose first chunk arrived, with nothing
    /// received yet (replacing any transfer of the same id).
    pub fn begin(&mut self, file_id: u64, file_name: &str, total_size: u64)
        ensures
            final(self)@ == table_after_begin(old(self)@, file_id, file_name@, total_size),
    {
        proof {
            use_type_invariant(&*self);
        }
        let mut transfers: HashMap<u64, TransferProgress> = HashMap::new();
        std::mem::swap(&mut transfers, &mut self.transfers);
        let ghost before = transfers@;
        let p = TransferProgress { file_id, file_name: file_name.to_owned(), total_size, received: 0 };
        transfers.insert(file_id, p);
        assert(entries_keyed(transfers@));
        self.transfers = transfers;
        assert(self@ =~= old(self)@.insert(
            file_id,
            ProgressView { file_name: file_name@, total_size, received: 0 },
        ));
    }

    /// Records that `len` more bytes of `file_id` were written.
    pub fn record_chunk(&mut self, file_id: u64, len: u64)
        requires
            old(self)@.contains_key(file_id),
            old(self)@[file_id].received + len <= u64::MAX,
        ensures
            final(self)@ == table_after_record(old(self)@, file_id, len),
    {
        proof {
            use_type_invariant(&*self);
        }
        let mut transfers: HashMap<u64, TransferProgress> = HashMap::new();
        std::mem::swap(&mut transfers, &mut self.transfers);
        match transfers.remove(&file_id) {
            Some(p) => {
                let updated = TransferProgress {
                    file_id: p.file_id,
                    file_name: p.file_name,
                    total_size: p.total_size,
                    received: p.received + len,
                };
                transfers.insert(file_id, updated);
            },
            None => {},
        }
        assert(entries_keyed(transfers@));
        self.transfers = transfers;
        assert(self@ =~= old(self)@.insert(
            file_id,
            ProgressView { received: (old(self)@[file_id].received + len) as u64, ..old(self)@[file_id] },
        ));
    }

    /// Ends the transfer of `file_id`, returning its progress if it was in
    /// progress; unknown ids change nothing.
    pub fn complete_transfer(&mut self, file_id: u64) -> (done: Option<TransferProgress>)
        ensures
            final(self)@ == old(self)@.remove(file_id),
            match done {
                Some(p) => old(self)@.contains_key(file_id) && progress_view(p) == old(self)@[file_id]
                    && p.file_id == file_id,
                None => !old(self)@.contains_key(file_id),
            },
    {
        proof {
            use_type_invariant(&*self);
        }
        let mut transfers: HashMap<u64, TransferProgress> = HashMap::new();
        std::mem::swap(&mut transfers, &mut self.transfers);
        let done = transfers.remove(&file_id);
        assert(entries_keyed(transfers@));
        self.transfers = transfers;
        assert(self@ =~= old(self)@.remove(file_id));
        done
    }
}


/// One chunk of an incoming file as its receiver handles it: the file name
/// and size the chunk announces, and how many bytes it carries.
pub struct IncomingChunk {
    pub file_name: Seq<char>,
    pub total_size: u64,
    pub len: u64,
}

/// The transfers after a receiver has handled one chunk of `file_id` and
/// written it: `begin` when `chunk_action` says `CreateThenWrite` (after
/// creating the file), then `record_chunk` with the chunk's length.
pub open spec fn table_after_chunk(t: Map<u64, ProgressView>, file_id: u64, c: IncomingChunk) -> Map<
    u64,
    ProgressView,
> {
    let begun = if action_for(t, file_id) == ChunkAction::CreateThenWrite {
        table_after_begin(t, file_id, c.file_name, c.total_size)
    } else {
        t
    };
    table_after_record(begun, file_id, c.len)
}

/// The transfers after the chunks `cs` of `file_id` were handled in order.
pub open spec fn table_after_chunks(t: Map<u64, ProgressView>, file_id: u64, cs: Seq<IncomingChunk>) -> Map<
    u64,
    ProgressView,
>
    decreases cs.len(),
{
    if cs.len() == 0 {
        t
    } else {
        table_after_chunk(table_after_chunks(t, file_id, cs.drop_last()), file_id, cs.last())
    }
}

/// The number of bytes the chunks `cs` carry.
pub open spec fn total_len(cs: Seq<IncomingChunk>) -> nat
    decreases cs.len(),
{
    if cs.len() == 0 {
        0
    } else {
        total_len(cs.drop_last()) + cs.last().len as nat
    }
}

/// Law: when chunks of a file that is not in progress arrive and are
/// written one after another, the receiver creates the file for the first
/// chunk only and writes every later one; afterwards the file is tracked
/// under the name and size the first chunk announced (those of later chunks
/// are ignored), with the chunks' byte counts summed, and no other transfer
/// changes. Each chunk's byte count fits in the 64-bit counter of the
/// receiver, as `record_chunk` requires.
pub proof fn lemma_incoming_file(t: Map<u64, ProgressView>, file_id: u64, cs: Seq<IncomingChunk>)
    requires
        !t.contains_key(file_id),
        cs.len() > 0,
        total_len(cs) <= u64::MAX,
    ensures
        table_after_chunks(t, file_id, cs) == t.insert(
            file_id,
            ProgressView {
                file_name: cs[0].file_name,
                total_size: cs[0].total_size,
                received: total_len(cs) as u64,
            },
        ),
        forall|k: int|
            0 <= k < cs.len() ==> #[trigger] action_for(table_after_chunks(t, file_id, cs.take(k)), file_id)
                == (if k == 0 {
                ChunkAction::CreateThenWrite
            } else {
                ChunkAction::Write
            }),
    decreases cs.len(),
{
    let prev = cs.drop_last();
    let c = cs.last();
    if cs.len() == 1 {
        assert(prev.len() == 0);
        assert(table_after_chunks(t, file_id, prev) == t);
        assert(total_len(prev) == 0);
        assert(cs[0] == c);
        assert(table_after_chunks(t, file_id, cs) =~= t.insert(
            file_id,
            ProgressView { file_name: c.file_name, total_size: c.total_size, received: c.len },
        ));
    } else {
        lemma_incoming_file(t, file_id, prev);
        assert(prev[0] == cs[0]);
        let before = table_after_chunks(t, file_id, prev);
        assert(before.contains_key(file_id));
        assert(table_after_chunks(t, file_id, cs) =~= t.insert(
            file_id,
            ProgressView {
                file_name: cs[0].file_name,
                total_size: cs[0].total_size,
                received: total_len(cs) as u64,
            },
        ));
    }
    assert forall|k: int| 0 <= k < cs.len() implies #[trigger] action_for(
        table_after_chunks(t, file_id, cs.take(k)),
        file_id,
    ) == (if k == 0 {
        ChunkAction::CreateThenWrite
    } else {
        ChunkAction::Write
    }) by {
        if k == 0 {
            assert(cs.take(0).len() == 0);
        } else if k == cs.len() - 1 {
            assert(cs.take(k) =~= prev);
            lemma_incoming_file(t, file_id, prev);
        } else {
            assert(cs.take(k) =~= prev.take(k));
            lemma_incoming_file(t, file_id, prev);
            assert(action_for(table_after_chunks(t, file_id, prev.take(k)), file_id) == ChunkAction::Write);
        }
    }
}

} // verus!
