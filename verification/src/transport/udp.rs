//! Splitting encoded frames into UDP-sized chunks and reassembling them.
use crate::protocol::{ChunkView, FrameChunk, FrameEncoding};
use vstd::prelude::*;
use vstd::slice::slice_to_vec;

verus! {

/// Largest payload of one frame chunk, leaving room for headers under a
/// typical MTU.
pub const MAX_CHUNK_SIZE: usize = 1300;

/// Number of chunks a frame of `len` bytes is split into: `len / 1300`
/// rounded up.
pub open spec fn chunk_count(len: nat) -> nat {
    ((len + 1299) / 1300) as nat
}

/// The bytes of chunk `i` of `data`.
pub open spec fn chunk_bytes(data: Seq<u8>, i: int) -> Seq<u8> {
    let end = if (i + 1) * 1300 <= data.len() {
        (i + 1) * 1300
    } else {
        data.len() as int
    };
    data.subrange(i * 1300, end)
}

/// The number of chunks a frame of `len` bytes is split into, as the 32-bit
/// count carried in every chunk (truncated beyond 2^32 - 1 chunks).
pub fn frame_chunk_count(len: usize) -> (n: u32)
    ensures
        n == chunk_count(len as nat) as u32,
{
    let q: usize = len / MAX_CHUNK_SIZE;
    let n: usize = if len % MAX_CHUNK_SIZE == 0 {
        q
    } else {
        q + 1
    };
    assert(n == chunk_count(len as nat)) by (nonlinear_arith)
        requires
            q == len / 1300,
            n == (if len % 1300 == 0 { q as int } else { q + 1 }),
    ;
    n as u32
}

/// Splits an encoded frame into chunks of at most `MAX_CHUNK_SIZE` bytes,
/// each carrying the frame's id, dimensions, encoding, the chunk count and
/// its own index.
pub fn split_frame(
    frame_id: u64,
    width: u32,
    height: u32,
    encoding: FrameEncoding,
    data: &[u8],
) -> (chunks: Vec<FrameChunk>)
    ensures
        chunks@.len() == chunk_count(data@.len()),
        forall|i: int|
            #![trigger chunks@[i]]
            0 <= i < chunks@.len() ==> {
                &&& chunks@[i].frame_id == frame_id
                &&& chunks@[i].total_chunks == chunk_count(data@.len()) as u32
                &&& chunks@[i].chunk_index == i as u32
                &&& chunks@[i].width == width
                &&& chunks@[i].height == height
                &&& chunks@[i].encoding == encoding
                &&& chunks@[i].data@ == chunk_bytes(data@, i)
            },
{
    let total = frame_chunk_count(data.len());
    let ghost n = chunk_count(data@.len());
    let mut chunks: Vec<FrameChunk> = Vec::new();
    let mut start: usize = 0;
    let mut i: usize = 0;
    while start < data.len()
        invariant
            start == (if i * 1300 <= data@.len() { i * 1300 } else { data@.len() as int }),
            i <= n,
            start < data@.len() ==> i < n,
            start >= data@.len() ==> i == n,
            n == chunk_count(data@.len()),
            total == n as u32,
            chunks@.len() == i,
            forall|k: int|
                #![trigger chunks@[k]]
                0 <= k < i ==> {
                    &&& chunks@[k].frame_id == frame_id
                    &&& chunks@[k].total_chunks == total
                    &&& chunks@[k].chunk_index == k as u32
                    &&& chunks@[k].width == width
                    &&& chunks@[k].height == height
                    &&& chunks@[k].encoding == encoding
                    &&& chunks@[k].data@ == chunk_bytes(data@, k)
                },
        decreases data@.len() - start,
    {
        let end: usize = if data.len() - start >= MAX_CHUNK_SIZE {
            start + MAX_CHUNK_SIZE
        } else {
            data.len()
        };
        let bytes = slice_to_vec(vstd::slice::slice_subrange(data, start, end));
        let chunk = FrameChunk {
            frame_id,
            total_chunks: total,
            chunk_index: i as u32,
            width,
            height,
            encoding,
            data: bytes,
        };
        chunks.push(chunk);
        proof {
            assert(chunks@[i as int].data@ == chunk_bytes(data@, i as int));
            if end < data@.len() {
                assert(i + 1 < n) by (nonlinear_arith)
                    requires
                        start == i * 1300,
                        end == start + 1300,
                        end < data@.len(),
                        n == (data@.len() + 1299) / 1300,
                ;
            } else {
                assert(i + 1 == n) by (nonlinear_arith)
                    requires
                        start == i * 1300,
                        start < data@.len(),
                        end >= data@.len(),
                        end <= start + 1300,
                        n == (data@.len() + 1299) / 1300,
                ;
            }
        }
        start = end;
        i = i + 1;
    }
    if data.len() == 0 {
        assert(n == 0);
    }
    chunks
}


// ─── Reassembly ────────────────────────────────────────────────────

/// The slots of a frame being reassembled: slot `i` holds chunk `i`'s bytes
/// once it has arrived.
pub type Slots = Seq<Option<Seq<u8>>>;

/// The slots after a chunk arrives: the chunk is stored when it belongs to
/// the frame, its index is in range and its slot is still empty; otherwise
/// nothing changes.
pub open spec fn slots_after_chunk(
    slots: Slots,
    frame_id: u64,
    chunk_frame_id: u64,
    chunk_index: u32,
    chunk_data: Seq<u8>,
) -> Slots {
    if chunk_frame_id == frame_id && (chunk_index as int) < slots.len()
        && slots[chunk_index as int] is None {
        slots.update(chunk_index as int, Some(chunk_data))
    } else {
        slots
    }
}

/// Number of filled slots.
pub open spec fn filled_count(slots: Slots) -> nat
    decreases slots.len(),
{
    if slots.len() == 0 {
        0
    } else {
        filled_count(slots.drop_last()) + if slots.last() is Some {
            1nat
        } else {
            0nat
        }
    }
}

/// Every slot is filled.
pub open spec fn all_filled(slots: Slots) -> bool {
    forall|i: int| 0 <= i < slots.len() ==> (#[trigger] slots[i]) is Some
}

/// The bytes of the filled slots, in slot order.
pub open spec fn concat_filled(slots: Slots) -> Seq<u8>
    decreases slots.len(),
{
    if slots.len() == 0 {
        Seq::empty()
    } else {
        concat_filled(slots.drop_last()) + match slots.last() {
            Some(b) => b,
            None => Seq::empty(),
        }
    }
}

/// `n` empty slots.
pub open spec fn empty_slots(n: nat) -> Slots {
    Seq::new(n, |i: int| None::<Seq<u8>>)
}

/// The abstract state of a frame being reassembled.
pub struct AssemblerView {
    pub frame_id: u64,
    pub total_chunks: u32,
    pub width: u32,
    pub height: u32,
    pub encoding: FrameEncoding,
    pub slots: Slots,
}

/// The assembler just started for the frame of chunk `c`: its frame id,
/// chunk count, dimensions and encoding, and one empty slot per chunk.
pub open spec fn started_view(c: ChunkView) -> AssemblerView {
    AssemblerView {
        frame_id: c.frame_id,
        total_chunks: c.total_chunks,
        width: c.width,
        height: c.height,
        encoding: c.encoding,
        slots: empty_slots(c.total_chunks as nat),
    }
}

/// The assembler after chunk `c` arrives: only the slots can change, as
/// `slots_after_chunk` says.
pub open spec fn view_after_chunk(v: AssemblerView, c: ChunkView) -> AssemblerView {
    AssemblerView {
        slots: slots_after_chunk(v.slots, v.frame_id, c.frame_id, c.chunk_index, c.data),
        ..v
    }
}

/// The assembler after the chunks `cs` arrive, in order.
pub open spec fn view_after_chunks(v: AssemblerView, cs: Seq<ChunkView>) -> AssemblerView
    decreases cs.len(),
{
    if cs.len() == 0 {
        v
    } else {
        view_after_chunk(view_after_chunks(v, cs.drop_last()), cs.last())
    }
}

/// A chunk of frame `frame_id` with index `k` is among `cs`.
pub open spec fn arrived(cs: Seq<ChunkView>, frame_id: u64, k: int) -> bool {
    exists|j: int| 0 <= j < cs.len() && (#[trigger] cs[j]).frame_id == frame_id && cs[j].chunk_index == k
}

/// Reassembles the chunks of one frame into the complete encoded frame.
pub struct FrameAssembler {
    frame_id: u64,
    total_chunks: u32,
    chunks: Vec<Option<Vec<u8>>>,
    width: u32,
    height: u32,
    encoding: FrameEncoding,
    received: u32,
}

/// The bytes of an optional vector.
pub open spec fn opt_bytes(c: Option<Vec<u8>>) -> Option<Seq<u8>> {
    match c {
        Some(v) => Some(v@),
        None => None,
    }
}

impl View for FrameAssembler {
    type V = AssemblerView;

    closed spec fn view(&self) -> AssemblerView {
        AssemblerView {
            frame_id: self.frame_id,
            total_chunks: self.total_chunks,
            width: self.width,
            height: self.height,
            encoding: self.encoding,
            slots: self.chunks@.map_values(|c: Option<Vec<u8>>| opt_bytes(c)),
        }
    }
}

proof fn lemma_filled_count_bound(slots: Slots)
    ensures
        filled_count(slots) <= slots.len(),
        filled_count(slots) == slots.len() <==> all_filled(slots),
    decreases slots.len(),
{
    if slots.len() > 0 {
        lemma_filled_count_bound(slots.drop_last());
        if all_filled(slots) {
            assert forall|i: int| 0 <= i < slots.drop_last().len() implies (
            #[trigger] slots.drop_last()[i]) is Some by {
                assert(slots[i] is Some);
            }
        }
        if filled_count(slots) == slots.len() {
            assert forall|i: int| 0 <= i < slots.len() implies (#[trigger] slots[i]) is Some by {
                if i < slots.len() - 1 {
                    assert(slots.drop_last()[i] == slots[i]);
                }
            }
        }
    }
}

proof fn lemma_filled_count_fill(slots: Slots, k: int, b: Seq<u8>)
    requires
        0 <= k < slots.len(),
        slots[k] is None,
    ensures
        filled_count(slots.update(k, Some(b))) == filled_count(slots) + 1,
    decreases slots.len(),
{
    let u = slots.update(k, Some(b));
    if k == slots.len() - 1 {
        assert(u.drop_last() =~= slots.drop_last());
    } else {
        lemma_filled_count_fill(slots.drop_last(), k, b);
        assert(u.drop_last() =~= slots.drop_last().update(k, Some(b)));
    }
}

proof fn lemma_filled_count_empty(n: nat)
    ensures
        filled_count(empty_slots(n)) == 0,
    decreases n,
{
    if n > 0 {
        assert(empty_slots(n).drop_last() =~= empty_slots((n - 1) as nat));
        lemma_filled_count_empty((n - 1) as nat);
    }
}

/// Stores `bytes` in the empty slot `idx` and counts it as received.
fn fill_slot(chunks: &mut Vec<Option<Vec<u8>>>, received: &mut u32, idx: usize, bytes: Vec<u8>)
    requires
        idx < old(chunks)@.len(),
        old(chunks)@[idx as int] is None,
        old(chunks)@.len() <= u32::MAX,
        *old(received) == filled_count(old(chunks)@.map_values(|c: Option<Vec<u8>>| opt_bytes(c))),
    ensures
        final(chunks)@ == old(chunks)@.update(idx as int, Some(bytes)),
        *final(received) == filled_count(final(chunks)@.map_values(|c: Option<Vec<u8>>| opt_bytes(c))),
    no_unwind
{
    let ghost old_slots = chunks@.map_values(|c: Option<Vec<u8>>| opt_bytes(c));
    proof {
        assert(old_slots[idx as int] is None);
        lemma_filled_count_fill(old_slots, idx as int, bytes@);
        lemma_filled_count_bound(old_slots.update(idx as int, Some(bytes@)));
    }
    let ghost b = bytes@;
    chunks[idx] = Some(bytes);
    *received = *received + 1;
    assert(chunks@.map_values(|c: Option<Vec<u8>>| opt_bytes(c)) =~= old_slots.update(idx as int, Some(b)));
}

impl FrameAssembler {
    /// The internal consistency every assembler keeps: one slot per chunk and
    /// a received count equal to the number of filled slots.
    #[verifier::type_invariant]
    spec fn wf(&self) -> bool {
        &&& self.chunks@.len() == self.total_chunks
        &&& self.received == filled_count(self@.slots)
    }

    /// Starts reassembling the frame that `chunk` belongs to, with one empty
    /// slot per chunk of that frame, then stores `chunk`.
    pub fn new(chunk: &FrameChunk) -> (assembler: FrameAssembler)
        ensures
            assembler@ == view_after_chunk(started_view(chunk@), chunk@),
    {
        let total = chunk.total_chunks;
        let mut chunks: Vec<Option<Vec<u8>>> = Vec::with_capacity(total as usize);
        let mut i: u32 = 0;
        while i < total
            invariant
                i <= total,
                chunks@.len() == i,
                forall|k: int| 0 <= k < i ==> (#[trigger] chunks@[k]) is None,
            decreases total - i,
        {
            chunks.push(None);
            i = i + 1;
        }
        proof {
            assert(chunks@.map_values(|c: Option<Vec<u8>>| opt_bytes(c)) =~= empty_slots(total as nat));
            lemma_filled_count_empty(total as nat);
        }
        let mut assembler = FrameAssembler {
            frame_id: chunk.frame_id,
            total_chunks: total,
            chunks,
            width: chunk.width,
            height: chunk.height,
            encoding: chunk.encoding,
            received: 0,
        };
        assembler.add_chunk(chunk);
        assembler
    }

    /// Stores a chunk of this frame in its slot. Chunks of other frames,
    /// indices out of range and chunks already stored are ignored.
    pub fn add_chunk(&mut self, chunk: &FrameChunk)
        ensures
            final(self)@ == view_after_chunk(old(self)@, chunk@),
    {
        proof {
            use_type_invariant(&*self);
        }
        if chunk.frame_id != self.frame_id {
            return;
        }
        let idx = chunk.chunk_index as usize;
        if idx < self.chunks.len() && self.chunks[idx].is_none() {
            let bytes = slice_to_vec(chunk.data.as_slice());
            fill_slot(&mut self.chunks, &mut self.received, idx, bytes);
        }
        assert(self@.slots =~= view_after_chunk(old(self)@, chunk@).slots);
    }

    /// True once every chunk of the frame has arrived.
    pub fn is_complete(&self) -> (done: bool)
        ensures
            done == all_filled(self@.slots),
    {
        proof {
            use_type_invariant(self);
            lemma_filled_count_bound(self@.slots);
        }
        self.received >= self.total_chunks
    }

    /// The complete frame: the chunks' bytes in index order, or `None` while a
    /// chunk is still missing.
    pub fn assemble(self) -> (frame: Option<Vec<u8>>)
        ensures
            match frame {
                Some(v) => all_filled(self@.slots) && v@ == concat_filled(self@.slots),
                None => !all_filled(self@.slots),
            },
    {
        if !self.is_complete() {
            return None;
        }
        let ghost slots = self@.slots;
        let mut data: Vec<u8> = Vec::new();
        let mut i: usize = 0;
        while i < self.chunks.len()
            invariant
                i <= self.chunks@.len(),
                slots == self@.slots,
                slots.len() == self.chunks@.len(),
                data@ == concat_filled(slots.subrange(0, i as int)),
            decreases self.chunks@.len() - i,
        {
            let ghost prefix = slots.subrange(0, i as int);
            assert(slots.subrange(0, i + 1).drop_last() =~= prefix);
            match &self.chunks[i] {
                Some(c) => {
                    let mut j: usize = 0;
                    let ghost before = data@;
                    while j < c.len()
                        invariant
                            j <= c@.len(),
                            data@ == before + c@.subrange(0, j as int),
                        decreases c@.len() - j,
                    {
                        data.push(c[j]);
                        j = j + 1;
                        assert(data@ =~= before + c@.subrange(0, j as int));
                    }
                    assert(c@.subrange(0, c@.len() as int) =~= c@);
                    assert(slots[i as int] == Some(c@));
                },
                None => {
                    assert(data@ =~= concat_filled(prefix) + Seq::<u8>::empty());
                },
            }
            i = i + 1;
        }
        assert(slots.subrange(0, slots.len() as int) =~= slots);
        Some(data)
    }

    /// The frame's width and height.
    pub fn dimensions(&self) -> (dims: (u32, u32))
        ensures
            dims == (self@.width, self@.height),
    {
        (self.width, self.height)
    }

    /// The frame's encoding.
    pub fn encoding(&self) -> (e: FrameEncoding)
        ensures
            e == self@.encoding,
    {
        self.encoding
    }

    /// The id of the frame being reassembled.
    pub fn frame_id(&self) -> (id: u64)
        ensures
            id == self@.frame_id,
    {
        self.frame_id
    }
}


// ─── Laws of chunking and reassembly ───────────────────────────────

/// The slots of an assembler for a frame of `data`, split into `n` chunks,
/// after the chunks with the indices in `arrivals` reached it in that order
/// (repeats allowed).
pub open spec fn slots_after_arrivals(n: nat, frame_id: u64, data: Seq<u8>, arrivals: Seq<int>) -> Slots
    decreases arrivals.len(),
{
    if arrivals.len() == 0 {
        empty_slots(n)
    } else {
        slots_after_chunk(
            slots_after_arrivals(n, frame_id, data, arrivals.drop_last()),
            frame_id,
            frame_id,
            arrivals.last() as u32,
            chunk_bytes(data, arrivals.last()),
        )
    }
}

proof fn lemma_arrivals_slots(n: nat, frame_id: u64, data: Seq<u8>, arrivals: Seq<int>)
    requires
        n <= 0xFFFFFFFF,
        forall|j: int| 0 <= j < arrivals.len() ==> 0 <= #[trigger] arrivals[j] < n,
    ensures
        ({
            let s = slots_after_arrivals(n, frame_id, data, arrivals);
            &&& s.len() == n
            &&& forall|k: int|
                0 <= k < n ==> #[trigger] s[k] == (if arrivals.contains(k) {
                    Some(chunk_bytes(data, k))
                } else {
                    None
                })
        }),
    decreases arrivals.len(),
{
    if arrivals.len() > 0 {
        let prev = arrivals.drop_last();
        assert forall|j: int| 0 <= j < prev.len() implies 0 <= #[trigger] prev[j] < n by {
            assert(prev[j] == arrivals[j]);
        }
        lemma_arrivals_slots(n, frame_id, data, prev);
        let a = arrivals.last();
        assert(0 <= a < n) by {
            assert(arrivals[arrivals.len() - 1] == a);
        }
        assert((a as u32) as int == a);
        let s = slots_after_arrivals(n, frame_id, data, arrivals);
        assert forall|k: int| 0 <= k < n implies #[trigger] s[k] == (if arrivals.contains(k) {
            Some(chunk_bytes(data, k))
        } else {
            None
        }) by {
            if arrivals.contains(k) {
                let j = choose|j: int| 0 <= j < arrivals.len() && arrivals[j] == k;
                if j < arrivals.len() - 1 {
                    assert(prev[j] == k);
                    assert(prev.contains(k));
                }
            }
            if prev.contains(k) {
                let j = choose|j: int| 0 <= j < prev.len() && prev[j] == k;
                assert(arrivals[j] == k);
            }
        }
    }
}

proof fn lemma_concat_chunks(data: Seq<u8>, m: nat)
    requires
        m <= chunk_count(data.len()),
    ensures
        concat_filled(Seq::new(m, |k: int| Some(chunk_bytes(data, k)))) == data.subrange(
            0,
            if m * 1300 <= data.len() { (m * 1300) as int } else { data.len() as int },
        ),
    decreases m,
{
    let s = Seq::new(m, |k: int| Some(chunk_bytes(data, k)));
    if m == 0 {
        assert(data.subrange(0, 0) =~= Seq::<u8>::empty());
    } else {
        let p = (m - 1) as nat;
        lemma_concat_chunks(data, p);
        assert(s.drop_last() =~= Seq::new(p, |k: int| Some(chunk_bytes(data, k))));
        assert(p * 1300 < data.len()) by (nonlinear_arith)
            requires
                p + 1 <= (data.len() + 1299) / 1300,
        ;
        let end = if m * 1300 <= data.len() { (m * 1300) as int } else { data.len() as int };
        assert(data.subrange(0, (p * 1300) as int) + data.subrange((p * 1300) as int, end) =~= data.subrange(0, end));
    }
}

/// Law: a frame split by `split_frame` is rebuilt exactly by an assembler,
/// whatever order its chunks arrive in and however often each repeats, once
/// every chunk has arrived at least once. `arrivals` lists the indices of the
/// chunks in arrival order; the first one is the chunk the assembler was
/// created from. Holds for frames of up to `1300 * (2^32 - 1)` bytes, the
/// most a 32-bit chunk count can describe.
pub proof fn lemma_split_then_reassemble(frame_id: u64, data: Seq<u8>, arrivals: Seq<int>)
    requires
        data.len() <= 1300 * 0xFFFFFFFF,
        forall|j: int| 0 <= j < arrivals.len() ==> 0 <= #[trigger] arrivals[j] < chunk_count(data.len()),
        forall|i: int| 0 <= i < chunk_count(data.len()) ==> arrivals.contains(i),
    ensures
        chunk_count(data.len()) as u32 == chunk_count(data.len()),
        all_filled(slots_after_arrivals(chunk_count(data.len()), frame_id, data, arrivals)),
        concat_filled(slots_after_arrivals(chunk_count(data.len()), frame_id, data, arrivals))
            == data,
{
    let n = chunk_count(data.len());
    assert(n <= 0xFFFFFFFF) by (nonlinear_arith)
        requires
            data.len() <= 1300 * 0xFFFFFFFF,
            n == (data.len() + 1299) / 1300,
    ;
    lemma_arrivals_slots(n, frame_id, data, arrivals);
    let s = slots_after_arrivals(n, frame_id, data, arrivals);
    assert(s =~= Seq::new(n, |k: int| Some(chunk_bytes(data, k))));
    lemma_concat_chunks(data, n);
    assert(n * 1300 >= data.len()) by (nonlinear_arith)
        requires
            n == (data.len() + 1299) / 1300,
    ;
    assert(data.subrange(0, data.len() as int) =~= data);
}

/// Law: every chunk of a split frame is at most `MAX_CHUNK_SIZE` bytes, and
/// every chunk but the last is exactly that size.
pub proof fn lemma_chunk_sizes(data: Seq<u8>, i: int)
    requires
        0 <= i < chunk_count(data.len()),
    ensures
        chunk_bytes(data, i).len() <= 1300,
        chunk_bytes(data, i).len() > 0,
        i < chunk_count(data.len()) - 1 ==> chunk_bytes(data, i).len() == 1300,
{
    let n = chunk_count(data.len());
    assert(i * 1300 < data.len()) by (nonlinear_arith)
        requires
            i + 1 <= n,
            n == (data.len() + 1299) / 1300,
    ;
    if i < n - 1 {
        assert((i + 1) * 1300 <= data.len()) by (nonlinear_arith)
            requires
                i + 2 <= n,
                n == (data.len() + 1299) / 1300,
        ;
    }
}

proof fn lemma_chunks_slots(v: AssemblerView, cs: Seq<ChunkView>)
    ensures
        ({
            let w = view_after_chunks(v, cs);
            &&& w.frame_id == v.frame_id
            &&& w.total_chunks == v.total_chunks
            &&& w.width == v.width
            &&& w.height == v.height
            &&& w.encoding == v.encoding
            &&& w.slots.len() == v.slots.len()
            &&& forall|k: int|
                0 <= k < v.slots.len() ==> ((#[trigger] w.slots[k]) is Some <==> (v.slots[k] is Some
                    || arrived(cs, v.frame_id, k)))
        }),
    decreases cs.len(),
{
    if cs.len() > 0 {
        let prev = cs.drop_last();
        lemma_chunks_slots(v, prev);
        let u = view_after_chunks(v, prev);
        let c = cs.last();
        let w = view_after_chunk(u, c);
        assert(cs[cs.len() - 1] == c);
        assert forall|k: int| 0 <= k < v.slots.len() implies ((#[trigger] w.slots[k]) is Some <==> (
        v.slots[k] is Some || arrived(cs, v.frame_id, k))) by {
            if arrived(prev, v.frame_id, k) {
                let j = choose|j: int|
                    0 <= j < prev.len() && (#[trigger] prev[j]).frame_id == v.frame_id
                        && prev[j].chunk_index == k;
                assert(cs[j] == prev[j]);
            }
            if arrived(cs, v.frame_id, k) {
                let j = choose|j: int|
                    0 <= j < cs.len() && (#[trigger] cs[j]).frame_id == v.frame_id && cs[j].chunk_index
                        == k;
                if j < cs.len() - 1 {
                    assert(prev[j] == cs[j]);
                }
            }
        }
    }
}

/// Law: an assembler started from the chunk `first` and then given the
/// chunks `rest`, in order, keeps the frame id, chunk count, dimensions and
/// encoding of `first`, whatever the other chunks carry; slot `k` is filled
/// exactly when a chunk of that frame with index `k` has arrived; no more
/// slots are filled than the frame has chunks; and it is complete exactly
/// when every index below the chunk count has arrived. (`new` gives the
/// assembler of `seq![first]`, and each `add_chunk` adds one chunk.)
pub proof fn lemma_assembly_progress(first: ChunkView, rest: Seq<ChunkView>)
    ensures
        ({
            let all = seq![first] + rest;
            let v = view_after_chunks(started_view(first), all);
            &&& v.frame_id == first.frame_id
            &&& v.total_chunks == first.total_chunks
            &&& v.width == first.width
            &&& v.height == first.height
            &&& v.encoding == first.encoding
            &&& v.slots.len() == first.total_chunks
            &&& forall|k: int|
                0 <= k < first.total_chunks ==> ((#[trigger] v.slots[k]) is Some <==> arrived(
                    all,
                    first.frame_id,
                    k,
                ))
            &&& filled_count(v.slots) <= first.total_chunks
            &&& all_filled(v.slots) <==> (forall|k: int|
                0 <= k < first.total_chunks ==> #[trigger] arrived(all, first.frame_id, k))
        }),
{
    let all = seq![first] + rest;
    let s = started_view(first);
    lemma_chunks_slots(s, all);
    let v = view_after_chunks(s, all);
    lemma_filled_count_bound(v.slots);
    assert forall|k: int| 0 <= k < first.total_chunks implies ((#[trigger] v.slots[k]) is Some
        <==> arrived(all, first.frame_id, k)) by {
        assert(s.slots[k] is None);
    }
    if all_filled(v.slots) {
        assert forall|k: int| 0 <= k < first.total_chunks implies #[trigger] arrived(
            all,
            first.frame_id,
            k,
        ) by {
            assert(v.slots[k] is Some);
        }
    }
    if forall|k: int| 0 <= k < first.total_chunks ==> #[trigger] arrived(all, first.frame_id, k) {
        assert forall|k: int| 0 <= k < v.slots.len() implies (#[trigger] v.slots[k]) is Some by {
            assert(arrived(all, first.frame_id, k));
        }
    }
}

/// Every chunk of frame `frame_id` among `cs` carries the bytes that
/// `split_frame` puts in the chunk of its index of `data`.
pub open spec fn carries_frame(cs: Seq<ChunkView>, frame_id: u64, data: Seq<u8>) -> bool {
    forall|j: int|
        0 <= j < cs.len() && (#[trigger] cs[j]).frame_id == frame_id ==> cs[j].data == chunk_bytes(
            data,
            cs[j].chunk_index as int,
        )
}

proof fn lemma_chunks_hold_frame_bytes(v: AssemblerView, cs: Seq<ChunkView>, data: Seq<u8>)
    requires
        forall|k: int|
            0 <= k < v.slots.len() && (#[trigger] v.slots[k]) is Some ==> v.slots[k] == Some(
                chunk_bytes(data, k),
            ),
        carries_frame(cs, v.frame_id, data),
    ensures
        forall|k: int|
            0 <= k < v.slots.len() && (#[trigger] view_after_chunks(v, cs).slots[k]) is Some
                ==> view_after_chunks(v, cs).slots[k] == Some(chunk_bytes(data, k)),
    decreases cs.len(),
{
    if cs.len() > 0 {
        let prev = cs.drop_last();
        assert(carries_frame(prev, v.frame_id, data)) by {
            assert forall|j: int| 0 <= j < prev.len() && (#[trigger] prev[j]).frame_id == v.frame_id implies prev[j].data
                == chunk_bytes(data, prev[j].chunk_index as int) by {
                assert(prev[j] == cs[j]);
            }
        }
        lemma_chunks_hold_frame_bytes(v, prev, data);
        lemma_chunks_slots(v, prev);
        let c = cs.last();
        assert(cs[cs.len() - 1] == c);
    }
}

/// Law: the chunks that `split_frame` makes of `data`, fed to an assembler
/// (`new` with the first, `add_chunk` with each later one) in any order,
/// with repeats and with chunks of other frames mixed in, rebuild `data`
/// exactly once every index has arrived. `first` is the chunk the assembler
/// was made from; its chunk count is that of `data`, as `split_frame` sets
/// it. Holds for frames of up to `1300 * (2^32 - 1)` bytes.
pub proof fn lemma_split_chunks_reassemble(data: Seq<u8>, first: ChunkView, rest: Seq<ChunkView>)
    requires
        data.len() <= 1300 * 0xFFFFFFFF,
        first.total_chunks == chunk_count(data.len()),
        carries_frame(seq![first] + rest, first.frame_id, data),
        forall|k: int| 0 <= k < chunk_count(data.len()) ==> #[trigger] arrived(seq![first] + rest, first.frame_id, k),
    ensures
        all_filled(view_after_chunks(started_view(first), seq![first] + rest).slots),
        concat_filled(view_after_chunks(started_view(first), seq![first] + rest).slots) == data,
{
    let all = seq![first] + rest;
    let n = chunk_count(data.len());
    let s = started_view(first);
    lemma_assembly_progress(first, rest);
    lemma_chunks_hold_frame_bytes(s, all, data);
    let v = view_after_chunks(s, all);
    assert(all_filled(v.slots));
    assert(v.slots =~= Seq::new(n, |k: int| Some(chunk_bytes(data, k)))) by {
        assert forall|k: int| 0 <= k < n implies #[trigger] v.slots[k] == Some(chunk_bytes(data, k)) by {
            assert(v.slots[k] is Some);
        }
    }
    lemma_concat_chunks(data, n);
    assert(n * 1300 >= data.len()) by (nonlinear_arith)
        requires
            n == (data.len() + 1299) / 1300,
    ;
    assert(data.subrange(0, data.len() as int) =~= data);
}

/// Law: a complete assembler stays complete; no chunk that arrives later
/// changes it.
pub proof fn lemma_complete_stays_complete(v: AssemblerView, cs: Seq<ChunkView>)
    requires
        all_filled(v.slots),
    ensures
        view_after_chunks(v, cs) == v,
        all_filled(view_after_chunks(v, cs).slots),
    decreases cs.len(),
{
    if cs.len() > 0 {
        lemma_complete_stays_complete(v, cs.drop_last());
        let c = cs.last();
        if c.frame_id == v.frame_id && (c.chunk_index as int) < v.slots.len() {
            assert(v.slots[c.chunk_index as int] is Some);
        }
    }
}

/// Law: chunks of another frame leave an assembler unchanged, and so does a
/// chunk whose slot is already filled.
pub proof fn lemma_foreign_or_repeated_chunk_ignored(
    slots: Slots,
    frame_id: u64,
    chunk_frame_id: u64,
    chunk_index: u32,
    chunk_data: Seq<u8>,
)
    requires
        chunk_frame_id != frame_id || ((chunk_index as int) < slots.len()
            && slots[chunk_index as int] is Some),
    ensures
        slots_after_chunk(slots, frame_id, chunk_frame_id, chunk_index, chunk_data) == slots,
{
}

} // verus!
