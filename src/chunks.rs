use std::collections::BTreeMap;

use vstd::prelude::*;
use vstd::std_specs::cmp::OrdSpec;
use vstd::std_specs::iter::IteratorSpec;

use crate::msg::MsgViewData;
use crate::util::{timestamp_of, ulid_timestamp_ms, Id, RAND_BITS_DIVISOR};

verus! {

broadcast use vstd::std_specs::btree::group_btree_axioms, vstd::laws_cmp::group_laws_cmp;

/// Most messages a chunk holds.
pub const CHUNK_SIZE: usize = 20;

/// A youngest chunk holding fewer messages than this is shown together with
/// the chunk before it, so that a first view is not too sparse.
pub const SPARSE_CHUNK: usize = 15;

/// Whether the keys of `s` never decrease.
pub open spec fn sorted_by_key(s: Seq<MsgViewData>) -> bool {
    forall|i: int, j: int| 0 <= i <= j < s.len() ==> s[i].key() <= s[j].key()
}

/// Relies on `slice::sort_by_key`: the result is a reordering of the input,
/// ascending by key.
#[verifier::external_body]
fn sort_by_ulid(msgs: &mut Vec<MsgViewData>)
    ensures
        final(msgs)@.len() == old(msgs)@.len(),
        final(msgs)@.to_multiset() == old(msgs)@.to_multiset(),
        sorted_by_key(final(msgs)@),
{
    msgs.sort_by_key(|m| m.id.id)
}

/// The messages of `chunks`, oldest first.
pub open spec fn messages_of(chunks: Seq<MsgChunk>) -> Seq<MsgViewData>
    decreases chunks.len(),
{
    if chunks.len() == 0 {
        Seq::empty()
    } else {
        messages_of(chunks.drop_last()) + chunks.last().msgs@
    }
}

/// Index of the first message at or after `j` whose key is `key`.
pub open spec fn first_index_from(msgs: Seq<MsgViewData>, key: u128, j: int) -> Option<int>
    decreases msgs.len() - j,
{
    if j < 0 || j >= msgs.len() {
        None
    } else if msgs[j].key() == key {
        Some(j)
    } else {
        first_index_from(msgs, key, j + 1)
    }
}

/// Whether the youngest message of `chunk` is not older than `key`, by
/// millisecond timestamp.
pub open spec fn reaches_timestamp(chunk: MsgChunk, key: u128) -> bool {
    timestamp_of(chunk.last) >= timestamp_of(key)
}

/// Index of the first chunk at or after `c` that reaches the timestamp of `key`.
pub open spec fn first_chunk_from(chunks: Seq<MsgChunk>, key: u128, c: int) -> Option<int>
    decreases chunks.len() - c,
{
    if c < 0 || c >= chunks.len() {
        None
    } else if reaches_timestamp(chunks[c], key) {
        Some(c)
    } else {
        first_chunk_from(chunks, key, c + 1)
    }
}

/// Whether a lookup of `key` searches `chunk`: by timestamp, or by the whole
/// key of the chunk's youngest message.
pub open spec fn searched(chunk: MsgChunk, key: u128, by_timestamp: bool) -> bool {
    if by_timestamp {
        reaches_timestamp(chunk, key)
    } else {
        chunk.last >= key
    }
}

/// Chunk and in-chunk index of the first message with key `key` among the
/// searched chunks at or after `c`.
pub open spec fn first_hit_from(chunks: Seq<MsgChunk>, key: u128, by_timestamp: bool, c: int) -> Option<
    (int, int),
>
    decreases chunks.len() - c,
{
    if c < 0 || c >= chunks.len() {
        None
    } else if searched(chunks[c], key, by_timestamp) && first_index_from(chunks[c].msgs@, key, 0) is Some {
        Some((c, first_index_from(chunks[c].msgs@, key, 0)->0))
    } else {
        first_hit_from(chunks, key, by_timestamp, c + 1)
    }
}

pub(crate) proof fn lemma_first_index_bounds(msgs: Seq<MsgViewData>, key: u128, j: int)
    ensures
        first_index_from(msgs, key, j) matches Some(k) ==> j <= k < msgs.len() && msgs[k].key() == key,
    decreases msgs.len() - j,
{
    if 0 <= j < msgs.len() && msgs[j].key() != key {
        lemma_first_index_bounds(msgs, key, j + 1);
    }
}

proof fn lemma_first_hit_bounds(chunks: Seq<MsgChunk>, key: u128, by_timestamp: bool, c: int)
    ensures
        first_hit_from(chunks, key, by_timestamp, c) matches Some((d, k)) ==> c <= d < chunks.len()
            && 0 <= k < chunks[d].msgs@.len() && chunks[d].msgs@[k].key() == key,
    decreases chunks.len() - c,
{
    if 0 <= c < chunks.len() {
        lemma_first_index_bounds(chunks[c].msgs@, key, 0);
        lemma_first_hit_bounds(chunks, key, by_timestamp, c + 1);
    }
}

proof fn lemma_messages_split(chunks: Seq<MsgChunk>, c: int)
    requires
        0 <= c <= chunks.len(),
    ensures
        messages_of(chunks) == messages_of(chunks.subrange(0, c)) + messages_of(
            chunks.subrange(c, chunks.len() as int),
        ),
    decreases chunks.len(),
{
    let n = chunks.len() as int;
    if c == n {
        assert(chunks.subrange(0, c) =~= chunks);
        assert(chunks.subrange(c, n) =~= Seq::<MsgChunk>::empty());
        assert(messages_of(chunks) + Seq::<MsgViewData>::empty() =~= messages_of(chunks));
    } else {
        let pre = chunks.drop_last();
        lemma_messages_split(pre, c);
        assert(pre.subrange(0, c) =~= chunks.subrange(0, c));
        assert(chunks.subrange(c, n).drop_last() =~= pre.subrange(c, n - 1));
        let a = messages_of(chunks.subrange(0, c));
        let b = messages_of(pre.subrange(c, n - 1));
        let l = chunks.last().msgs@;
        assert((a + b) + l =~= a + (b + l));
    }
}

proof fn lemma_single_chunk(chunk: MsgChunk)
    ensures
        messages_of(seq![chunk]) == chunk.msgs@,
{
    assert(seq![chunk].drop_last() =~= Seq::<MsgChunk>::empty());
    assert(messages_of(Seq::<MsgChunk>::empty()) =~= Seq::<MsgViewData>::empty());
    assert(Seq::<MsgViewData>::empty() + chunk.msgs@ =~= chunk.msgs@);
}

proof fn lemma_full_prefix_len(chunks: Seq<MsgChunk>, c: int)
    requires
        0 <= c <= chunks.len(),
        forall|d: int| 0 <= d < c ==> (#[trigger] chunks[d]).msgs@.len() == CHUNK_SIZE,
    ensures
        messages_of(chunks.subrange(0, c)).len() == CHUNK_SIZE * c,
    decreases c,
{
    if c > 0 {
        lemma_full_prefix_len(chunks, c - 1);
        assert(chunks.subrange(0, c).drop_last() =~= chunks.subrange(0, c - 1));
    }
}

proof fn lemma_first_chunk_bounds(chunks: Seq<MsgChunk>, key: u128, c: int)
    ensures
        first_chunk_from(chunks, key, c) matches Some(d) ==> c <= d < chunks.len() && reaches_timestamp(
            chunks[d],
            key,
        ),
    decreases chunks.len() - c,
{
    if 0 <= c < chunks.len() && !reaches_timestamp(chunks[c], key) {
        lemma_first_chunk_bounds(chunks, key, c + 1);
    }
}

/// Index of the first message in `msgs` with key `key`.
fn index_of_key(msgs: &Vec<MsgViewData>, key: u128) -> (r: Option<usize>)
    ensures
        match r {
            Some(j) => first_index_from(msgs@, key, 0) == Some(j as int),
            None => first_index_from(msgs@, key, 0) is None,
        },
{
    let mut j: usize = 0;
    while j < msgs.len()
        invariant
            0 <= j <= msgs@.len(),
            first_index_from(msgs@, key, 0) == first_index_from(msgs@, key, j as int),
        decreases msgs@.len() - j,
    {
        if msgs[j].id.id == key {
            return Some(j);
        }
        j = j + 1;
    }
    None
}

/// Appends copies of `src[from..]` to `out`.
fn copy_tail(src: &Vec<MsgViewData>, from: usize, out: &mut Vec<MsgViewData>)
    requires
        from <= src@.len(),
    ensures
        final(out)@ == old(out)@ + src@.subrange(from as int, src@.len() as int),
{
    let mut i = from;
    while i < src.len()
        invariant
            from <= i <= src@.len(),
            out@ == old(out)@ + src@.subrange(from as int, i as int),
        decreases src@.len() - i,
    {
        out.push(src[i].clone());
        assert(src@.subrange(from as int, i + 1) =~= src@.subrange(from as int, i as int).push(src@[i as int]));
        i = i + 1;
    }
}

/// Chunk load cases.
#[derive(Clone, Copy, Debug, PartialEq, Eq, Structural)]
pub enum ChunkLoadCase {
    /// Nothing else to load: either all or nothing loaded.
    EverythingLoaded,
    /// Load the first chunk.
    NothingLoaded,
    /// One chunk loaded, load the next chunk.
    OneLoaded,
    /// Many chunks loaded, load the next chunk.
    ManyLoaded,
}

/// Why a chunk cannot be built from a list of messages.
#[derive(Clone, Copy, Debug, PartialEq, Eq, Structural)]
pub enum ChunkError {
    /// The list is empty.
    EmptyChunk,
    /// The list holds more than [`CHUNK_SIZE`] messages.
    ChunkOverflow,
}

/// A bounded run of at most [`CHUNK_SIZE`] messages, oldest first.
#[derive(Debug)]
pub struct MsgChunk {
    /// Number of stored messages.
    pub count: u8,
    /// All the stored messages.
    pub msgs: Vec<MsgViewData>,
    /// Key of the oldest stored message.
    pub first: u128,
    /// Key of the youngest stored message.
    pub last: u128,
}

impl MsgChunk {
    /// The count and the extreme keys agree with the stored messages.
    pub open spec fn wf(&self) -> bool {
        &&& self.count as int == self.msgs@.len()
        &&& self.msgs@.len() <= CHUNK_SIZE
        &&& self.msgs@.len() > 0 ==> self.first == self.msgs@[0].key() && self.last
            == self.msgs@.last().key()
    }

    /// A chunk holding `msgs` sorted by key.
    pub fn new(msgs: Vec<MsgViewData>) -> (r: Self)
        requires
            1 <= msgs@.len() <= CHUNK_SIZE,
        ensures
            r.wf(),
            sorted_by_key(r.msgs@),
            r.msgs@.to_multiset() == msgs@.to_multiset(),
            msgs@.len() == 1 ==> r.msgs@ == msgs@,
    {
        let mut msgs = msgs;
        if msgs.len() == 1 {
            let id = msgs[0].id.id;
            MsgChunk { count: 1, msgs, first: id, last: id }
        } else {
            sort_by_ulid(&mut msgs);
            let n = msgs.len();
            let first = msgs[0].id.id;
            let last = msgs[n - 1].id.id;
            MsgChunk { count: n as u8, msgs, first, last }
        }
    }

    /// Like [`MsgChunk::new`], but an error when `msgs` is empty or holds
    /// more than [`CHUNK_SIZE`] messages.
    pub fn try_new(msgs: Vec<MsgViewData>) -> (r: Result<Self, ChunkError>)
        ensures
            r == Err::<Self, ChunkError>(ChunkError::EmptyChunk) <==> msgs@.len() == 0,
            r == Err::<Self, ChunkError>(ChunkError::ChunkOverflow) <==> msgs@.len() > CHUNK_SIZE,
            r is Ok <==> 1 <= msgs@.len() <= CHUNK_SIZE,
            r matches Ok(c) ==> c.wf() && sorted_by_key(c.msgs@) && c.msgs@.to_multiset()
                == msgs@.to_multiset(),
    {
        if msgs.len() == 0 {
            Err(ChunkError::EmptyChunk)
        } else if msgs.len() > CHUNK_SIZE {
            Err(ChunkError::ChunkOverflow)
        } else {
            Ok(MsgChunk::new(msgs))
        }
    }

    /// Like [`MsgChunk::try_new`], with `None` for either error.
    pub fn new_v2(msgs: Vec<MsgViewData>) -> (r: Option<Self>)
        ensures
            r is None <==> (msgs@.len() == 0 || msgs@.len() > CHUNK_SIZE),
            r matches Some(c) ==> c.wf() && sorted_by_key(c.msgs@) && c.msgs@.to_multiset()
                == msgs@.to_multiset(),
    {
        match MsgChunk::try_new(msgs) {
            Ok(c) => Some(c),
            Err(_) => None,
        }
    }

    /// Adds `msg` after the stored messages, without sorting.
    pub fn add_msg(&mut self, msg: MsgViewData)
        requires
            old(self).wf(),
            old(self).msgs@.len() < CHUNK_SIZE,
        ensures
            final(self).wf(),
            final(self).msgs@ == old(self).msgs@.push(msg),
            final(self).last == msg.key(),
            final(self).first == if old(self).msgs@.len() == 0 {
                msg.key()
            } else {
                old(self).first
            },
    {
        self.last = msg.id.id;
        if self.count == 0 {
            self.first = msg.id.id;
        }
        self.msgs.push(msg);
        self.count = self.count + 1;
    }

    /// The structurally last stored message.
    pub fn last_msg(&self) -> (r: Option<&MsgViewData>)
        ensures
            match r {
                Some(m) => self.msgs@.len() > 0 && *m == self.msgs@.last(),
                None => self.msgs@.len() == 0,
            },
    {
        let n = self.msgs.len();
        if n == 0 {
            None
        } else {
            Some(&self.msgs[n - 1])
        }
    }
}

/// A room's messages partitioned into chunks, oldest chunk first, with
/// markers for the chunks currently on display.
#[derive(Debug)]
pub struct RoomMsgChunks {
    pub room_id: Id,
    /// Total number of stored messages.
    pub total_msgs: u16,
    /// Number of chunks.
    pub chunks_count: u16,
    /// Messages as chunks, oldest first.
    pub chunks: Vec<MsgChunk>,
    /// Whether a display window has been established.
    pub display_state: bool,
    /// Oldest chunk on display.
    pub oldest_display_chunk_idx: u16,
    /// Youngest chunk on display.
    pub youngest_display_chunk_idx: u16,
}

impl RoomMsgChunks {
    /// All stored messages, oldest first.
    pub open spec fn flat(&self) -> Seq<MsgViewData> {
        messages_of(self.chunks@)
    }

    /// Every chunk is well formed and not empty, every chunk but the last is
    /// full, the counters agree with the chunks, and the display markers
    /// point at stored chunks while a window is established.
    pub open spec fn wf(&self) -> bool {
        &&& self.chunks_count as int == self.chunks@.len()
        &&& forall|c: int|
            0 <= c < self.chunks@.len() ==> (#[trigger] self.chunks@[c]).wf() && self.chunks@[c].msgs@.len()
                > 0
        &&& forall|c: int|
            0 <= c < self.chunks@.len() - 1 ==> (#[trigger] self.chunks@[c]).msgs@.len() == CHUNK_SIZE
        &&& self.total_msgs as int == self.flat().len()
        &&& self.display_state ==> self.oldest_display_chunk_idx <= self.youngest_display_chunk_idx
            < self.chunks_count
    }

    /// Every chunk but the youngest is full.
    pub open spec fn full_but_last(&self) -> bool {
        forall|c: int| 0 <= c < self.chunks@.len() - 1 ==> (#[trigger] self.chunks@[c]).msgs@.len() == CHUNK_SIZE
    }

    /// Where chunk `c` lies among all stored messages.
    proof fn lemma_chunk_in_flat(&self, c: int)
        requires
            self.full_but_last(),
            0 <= c < self.chunks@.len(),
        ensures
            messages_of(self.chunks@.subrange(0, c)).len() == CHUNK_SIZE * c,
            self.flat() == messages_of(self.chunks@.subrange(0, c)) + self.chunks@[c].msgs@
                + messages_of(self.chunks@.subrange(c + 1, self.chunks@.len() as int)),
            forall|j: int|
                0 <= j < self.chunks@[c].msgs@.len() ==> self.flat()[CHUNK_SIZE * c + j]
                    == #[trigger] self.chunks@[c].msgs@[j],
    {
        let cs = self.chunks@;
        let n = cs.len() as int;
        lemma_full_prefix_len(cs, c);
        lemma_messages_split(cs, c);
        let rest = cs.subrange(c, n);
        lemma_messages_split(rest, 1);
        assert(rest.subrange(0, 1) =~= seq![cs[c]]);
        lemma_single_chunk(cs[c]);
        assert(rest.subrange(1, rest.len() as int) =~= cs.subrange(c + 1, n));
        let a = messages_of(cs.subrange(0, c));
        let b = cs[c].msgs@;
        let d = messages_of(cs.subrange(c + 1, n));
        assert(a + (b + d) =~= a + b + d);
    }

    /// The total is the full chunks plus the youngest chunk.
    proof fn lemma_total(&self)
        requires
            self.wf(),
            self.chunks@.len() > 0,
        ensures
            self.flat().len() == CHUNK_SIZE * (self.chunks@.len() - 1) + self.chunks@.last().msgs@.len(),
            self.flat().last() == self.chunks@.last().msgs@.last(),
    {
        let n = self.chunks@.len() as int;
        self.lemma_chunk_in_flat(n - 1);
        assert(self.chunks@.subrange(n, n) =~= Seq::<MsgChunk>::empty());
    }

    /// An empty history for room `room`.
    pub fn new(room: Id) -> (r: Self)
        ensures
            r.wf(),
            r.room_id == room,
            r.chunks@.len() == 0,
            r.flat().len() == 0,
            !r.display_state,
            r.oldest_display_chunk_idx == 0,
            r.youngest_display_chunk_idx == 0,
    {
        RoomMsgChunks {
            room_id: room,
            total_msgs: 0,
            chunks_count: 0,
            chunks: Vec::new(),
            display_state: false,
            oldest_display_chunk_idx: 0,
            youngest_display_chunk_idx: 0,
        }
    }

    /// A history holding exactly `msg`, in the room of `msg`.
    pub fn new_from_single_msg(msg: MsgViewData) -> (r: Self)
        ensures
            r.wf(),
            r.room_id == msg.room,
            r.chunks@.len() == 1,
            r.flat() == seq![msg],
            !r.display_state,
            r.oldest_display_chunk_idx == 0,
            r.youngest_display_chunk_idx == 0,
    {
        let room_id = msg.room;
        let mut chunk = MsgChunk { count: 0, msgs: Vec::new(), first: 0, last: 0 };
        chunk.add_msg(msg);
        let mut chunks = Vec::new();
        chunks.push(chunk);
        let r = RoomMsgChunks {
            room_id,
            total_msgs: 1,
            chunks_count: 1,
            chunks,
            display_state: false,
            oldest_display_chunk_idx: 0,
            youngest_display_chunk_idx: 0,
        };
        proof {
            assert(r.chunks@ =~= seq![r.chunks@[0]]);
            lemma_single_chunk(r.chunks@[0]);
        }
        r
    }

    /// Adds `msg` after all stored messages: into the youngest chunk, or into
    /// a new chunk when there is none or the youngest is full. The display
    /// markers are left as they are.
    pub fn append_new_msg(&mut self, msg: MsgViewData)
        requires
            old(self).wf(),
            old(self).total_msgs < u16::MAX,
        ensures
            final(self).wf(),
            final(self).flat() == old(self).flat().push(msg),
            final(self).chunks@.len() == if old(self).chunks@.len() == 0
                || old(self).chunks@.last().msgs@.len() == CHUNK_SIZE {
                old(self).chunks@.len() + 1
            } else {
                old(self).chunks@.len() + 0
            },
            final(self).room_id == old(self).room_id,
            final(self).display_state == old(self).display_state,
            final(self).oldest_display_chunk_idx == old(self).oldest_display_chunk_idx,
            final(self).youngest_display_chunk_idx == old(self).youngest_display_chunk_idx,
    {
        let n = self.chunks.len();
        proof {
            if n > 0 {
                self.lemma_total();
            }
        }
        if n == 0 || self.chunks[n - 1].count as usize >= CHUNK_SIZE {
            let mut chunk = MsgChunk { count: 0, msgs: Vec::new(), first: 0, last: 0 };
            chunk.add_msg(msg);
            assert(chunk.msgs@ =~= seq![msg]);
            self.chunks.push(chunk);
            self.chunks_count = self.chunks_count + 1;
            self.total_msgs = self.total_msgs + 1;
            proof {
                assert(self.chunks@.drop_last() =~= old(self).chunks@);
                assert(self.flat() =~= old(self).flat().push(msg));
            }
        } else {
            let ghost before = self.chunks@;
            let mut chunk = self.chunks.remove(n - 1);
            chunk.add_msg(msg);
            self.chunks.push(chunk);
            self.total_msgs = self.total_msgs + 1;
            proof {
                assert(self.chunks@.drop_last() =~= before.drop_last());
                assert(self.chunks@ =~= before.update(n - 1, self.chunks@[n - 1 as int]));
                assert(self.flat() =~= old(self).flat().push(msg));
            }
        }
    }

    /// A history holding the messages of `msgs` in ascending key order, in
    /// chunks of [`CHUNK_SIZE`] with a possibly partial youngest chunk.
    pub fn new_from_msgs(msgs: BTreeMap<u128, MsgViewData>, room_id: Id) -> (r: Self)
        requires
            msgs@.len() <= u16::MAX,
        ensures
            r.wf(),
            r.room_id == room_id,
            exists|keys: Seq<u128>|
                {
                    &&& keys.to_set() == msgs@.dom()
                    &&& keys.no_duplicates()
                    &&& forall|i: int, j: int| 0 <= i < j < keys.len() ==> keys[i] < keys[j]
                    &&& r.flat() == keys.map(|i: int, k: u128| msgs@[k])
                },
            !r.display_state,
            r.oldest_display_chunk_idx == 0,
            r.youngest_display_chunk_idx == 0,
    {
        assert(vstd::std_specs::btree::key_obeys_cmp_spec::<u128>());
        let values = msgs.values();
        let ghost keys = choose|ks: Seq<u128>|
            {
                &&& vstd::std_specs::btree::increasing_seq(ks)
                &&& ks.to_set() == msgs@.dom()
                &&& ks.no_duplicates()
                &&& values.remaining() == ks.map(|i: int, k: u128| &msgs@[k])
            };
        proof {
            keys.unique_seq_to_set();
        }
        let mut r = RoomMsgChunks::new(room_id);
        for m in it: values
            invariant
                it.seq() == keys.map(|i: int, k: u128| &msgs@[k]),
                keys.len() <= u16::MAX,
                r.wf(),
                r.room_id == room_id,
                !r.display_state,
                r.oldest_display_chunk_idx == 0,
                r.youngest_display_chunk_idx == 0,
                r.flat().len() == it.index(),
                forall|i: int| 0 <= i < it.index() ==> r.flat()[i] == *it.seq()[i],
        {
            r.append_new_msg(m.clone());
        }
        proof {
            vstd::std_specs::btree::axiom_increasing_seq_meaning::<u128>(keys);
            assert forall|i: int, j: int| 0 <= i < j < keys.len() implies keys[i] < keys[j] by {
                assert(keys[i].cmp_spec(&keys[j]) is Less);
            }
            assert(r.flat() =~= keys.map(|i: int, k: u128| msgs@[k]));
        }
        r
    }

    /// Chunk and offset of the message right after the one with key `key`:
    /// the next message in its chunk, else the start of the next chunk, else
    /// the end of the youngest chunk.
    pub open spec fn resume_after(&self, key: u128) -> Option<(int, int)> {
        match first_hit_from(self.chunks@, key, true, 0) {
            Some((c, j)) => if j + 1 < CHUNK_SIZE {
                Some((c, j + 1))
            } else if c + 1 < self.chunks@.len() {
                Some((c + 1, 0))
            } else {
                Some((c, CHUNK_SIZE as int))
            },
            None => None,
        }
    }

    /// Where a fetch of the content from chunk `c`, offset `o` onwards
    /// starts. Under a limit, content spanning more than one chunk is cut to
    /// the youngest chunk, or to the two youngest when the youngest is sparse.
    pub open spec fn limited_start(&self, c: int, o: int, with_limit: bool) -> (int, int) {
        let n = self.chunks@.len() as int;
        if with_limit && c < n - 1 {
            if self.chunks@.last().msgs@.len() < SPARSE_CHUNK {
                if c == n - 2 {
                    (c, o)
                } else {
                    (n - 2, 0)
                }
            } else {
                (n - 1, 0)
            }
        } else {
            (c, o)
        }
    }

    /// Oldest chunk of a first view: the youngest chunk, and the one before
    /// it when the youngest is sparse.
    pub open spec fn bootstrap_chunk(&self) -> int {
        let n = self.chunks@.len() as int;
        if n >= 2 && self.chunks@.last().msgs@.len() < SPARSE_CHUNK {
            n - 2
        } else {
            n - 1
        }
    }

    /// `self` and `other` hold the same room and the same messages.
    pub open spec fn same_storage(&self, other: &Self) -> bool {
        &&& self.room_id == other.room_id
        &&& self.total_msgs == other.total_msgs
        &&& self.chunks_count == other.chunks_count
        &&& self.chunks@ == other.chunks@
    }

    /// A window is established over chunks `oldest..=youngest`.
    pub open spec fn displays(&self, oldest: int, youngest: int) -> bool {
        &&& self.display_state
        &&& self.oldest_display_chunk_idx == oldest
        &&& self.youngest_display_chunk_idx == youngest
    }

    /// Whether chunks older than the oldest displayed one remain.
    pub fn anymore_available(&self) -> (r: bool)
        ensures
            r == (if self.chunks_count == 0 {
                0
            } else {
                self.chunks_count - 1
            } > self.oldest_display_chunk_idx),
    {
        self.chunks_count.saturating_sub(1) > self.oldest_display_chunk_idx
    }

    fn locate_chunk(&self, key: u128) -> (r: Option<usize>)
        requires
            self.wf(),
        ensures
            match r {
                Some(c) => first_chunk_from(self.chunks@, key, 0) == Some(c as int),
                None => first_chunk_from(self.chunks@, key, 0) is None,
            },
    {
        let ts = ulid_timestamp_ms(key);
        let mut c: usize = 0;
        while c < self.chunks.len()
            invariant
                0 <= c <= self.chunks@.len(),
                ts as int == timestamp_of(key),
                first_chunk_from(self.chunks@, key, 0) == first_chunk_from(self.chunks@, key, c as int),
            decreases self.chunks@.len() - c,
        {
            if ulid_timestamp_ms(self.chunks[c].last) >= ts {
                return Some(c);
            }
            c = c + 1;
        }
        None
    }

    /// Index of the first chunk whose youngest message is not older than
    /// `msg` by millisecond timestamp; 0 when there is none.
    pub fn msg_chunk_idx(&self, msg: &u128) -> (r: u16)
        requires
            self.wf(),
        ensures
            r == match first_chunk_from(self.chunks@, *msg, 0) {
                Some(c) => c,
                None => 0,
            },
    {
        proof {
            lemma_first_chunk_bounds(self.chunks@, *msg, 0);
        }
        match self.locate_chunk(*msg) {
            Some(c) => c as u16,
            None => 0,
        }
    }

    /// Chunk and index of the first message with key `key` among the chunks
    /// searched for it.
    fn first_hit(&self, key: u128, by_timestamp: bool) -> (r: Option<(usize, usize)>)
        requires
            self.wf(),
        ensures
            match r {
                Some((c, j)) => first_hit_from(self.chunks@, key, by_timestamp, 0) == Some(
                    (c as int, j as int),
                ),
                None => first_hit_from(self.chunks@, key, by_timestamp, 0) is None,
            },
    {
        let ts = ulid_timestamp_ms(key);
        let mut c: usize = 0;
        while c < self.chunks.len()
            invariant
                0 <= c <= self.chunks@.len(),
                ts as int == timestamp_of(key),
                first_hit_from(self.chunks@, key, by_timestamp, 0) == first_hit_from(
                    self.chunks@,
                    key,
                    by_timestamp,
                    c as int,
                ),
            decreases self.chunks@.len() - c,
        {
            let chunk = &self.chunks[c];
            let admitted = if by_timestamp {
                ulid_timestamp_ms(chunk.last) >= ts
            } else {
                chunk.last >= key
            };
            if admitted {
                match index_of_key(&chunk.msgs, key) {
                    Some(j) => {
                        return Some((c, j));
                    },
                    None => {},
                }
            }
            c = c + 1;
        }
        None
    }

    /// The message with key `id` in the first chunk, oldest first, whose
    /// youngest key is at least `id` and which holds such a message.
    pub fn find_msg(&self, id: u128) -> (r: Option<&MsgViewData>)
        requires
            self.wf(),
        ensures
            match first_hit_from(self.chunks@, id, false, 0) {
                Some((c, j)) => r matches Some(m) && *m == self.chunks@[c].msgs@[j],
                None => r is None,
            },
    {
        proof {
            lemma_first_hit_bounds(self.chunks@, id, false, 0);
        }
        match self.first_hit(id, false) {
            Some((c, j)) => Some(&self.chunks[c].msgs[j]),
            None => None,
        }
    }

    /// Replaces the stored message with the key of `msg`, looked up in the
    /// chunks whose youngest message is not older than it by timestamp.
    /// Nothing changes when there is no such message.
    pub fn update_one(&mut self, msg: &MsgViewData)
        requires
            old(self).wf(),
        ensures
            final(self).wf(),
            match first_hit_from(old(self).chunks@, msg.key(), true, 0) {
                Some((c, j)) => {
                    &&& final(self).flat() == old(self).flat().update(CHUNK_SIZE * c + j, *msg)
                    &&& final(self).chunks@.len() == old(self).chunks@.len()
                    &&& final(self).chunks@[c].msgs@ == old(self).chunks@[c].msgs@.update(j, *msg)
                    &&& final(self).room_id == old(self).room_id
                    &&& final(self).total_msgs == old(self).total_msgs
                    &&& final(self).display_state == old(self).display_state
                    &&& final(self).oldest_display_chunk_idx == old(self).oldest_display_chunk_idx
                    &&& final(self).youngest_display_chunk_idx == old(self).youngest_display_chunk_idx
                },
                None => *final(self) == *old(self),
            },
    {
        proof {
            lemma_first_hit_bounds(self.chunks@, msg.key(), true, 0);
        }
        match self.first_hit(msg.id.id, true) {
            Some((c, j)) => {
                let ghost before = self.chunks@;
                let mut chunk = self.chunks.remove(c);
                let ghost old_msgs = chunk.msgs@;
                chunk.msgs.set(j, msg.clone());
                self.chunks.insert(c, chunk);
                proof {
                    assert(self.chunks@ =~= before.update(c as int, self.chunks@[c as int]));
                    assert(self.chunks@[c as int].msgs@ =~= old_msgs.update(j as int, *msg));
                    assert forall|d: int| 0 <= d < self.chunks@.len() implies (
                    #[trigger] self.chunks@[d]).wf() && self.chunks@[d].msgs@.len() > 0 by {
                        if d == c {
                            assert(before[d].wf());
                        }
                    }
                    old(self).lemma_chunk_in_flat(c as int);
                    self.lemma_chunk_in_flat(c as int);
                    assert(self.chunks@.subrange(0, c as int) =~= before.subrange(0, c as int));
                    assert(self.chunks@.subrange(c + 1, before.len() as int) =~= before.subrange(
                        c + 1,
                        before.len() as int,
                    ));
                    assert(self.flat() =~= old(self).flat().update(CHUNK_SIZE * c + j, *msg));
                }
            },
            None => {},
        }
    }

    /// The youngest stored message.
    pub fn last_msg(&self) -> (r: Option<&MsgViewData>)
        requires
            self.wf(),
        ensures
            match r {
                Some(m) => self.flat().len() > 0 && *m == self.flat().last(),
                None => self.flat().len() == 0,
            },
    {
        if self.total_msgs == 0 {
            return None;
        }
        let n = self.chunks.len();
        proof {
            if n == 0 {
                assert(self.flat() =~= Seq::<MsgViewData>::empty());
            } else {
                self.lemma_total();
            }
        }
        self.chunks[n - 1].last_msg()
    }

    /// The youngest stored message. The youngest display marker moves up to
    /// the chunk that [`RoomMsgChunks::msg_chunk_idx`] gives for it when
    /// that chunk is younger.
    pub fn load_youngest_msg(&mut self) -> (r: Option<&MsgViewData>)
        requires
            old(self).wf(),
        ensures
            final(self).wf(),
            final(self).same_storage(old(self)),
            final(self).display_state == old(self).display_state,
            final(self).oldest_display_chunk_idx == old(self).oldest_display_chunk_idx,
            old(self).flat().len() == 0 ==> r is None && *final(self) == *old(self),
            old(self).flat().len() > 0 ==> {
                let idx = match first_chunk_from(old(self).chunks@, old(self).flat().last().key(), 0) {
                    Some(c) => c,
                    None => 0,
                };
                &&& r matches Some(m) && *m == old(self).flat().last()
                &&& final(self).youngest_display_chunk_idx == if old(self).youngest_display_chunk_idx
                    < idx {
                    idx
                } else {
                    old(self).youngest_display_chunk_idx as int
                }
            },
    {
        let key = match self.last_msg() {
            Some(msg) => msg.id.id,
            None => {
                return None;
            },
        };
        let idx = self.msg_chunk_idx(&key);
        proof {
            self.lemma_total();
            lemma_first_chunk_bounds(self.chunks@, key, 0);
        }
        if self.youngest_display_chunk_idx < idx {
            self.youngest_display_chunk_idx = idx;
        }
        self.last_msg()
    }

    /// Sets the display state to `false` and both markers to 0.
    pub fn reset_display(&mut self)
        requires
            old(self).wf(),
        ensures
            final(self).wf(),
            final(self).same_storage(old(self)),
            !final(self).display_state,
            final(self).oldest_display_chunk_idx == 0,
            final(self).youngest_display_chunk_idx == 0,
    {
        self.display_state = false;
        self.youngest_display_chunk_idx = 0;
        self.oldest_display_chunk_idx = 0;
    }

    /// Establishes a window over chunks `oldest_idx..=youngest_idx`.
    pub fn set_display(&mut self, oldest_idx: u16, youngest_idx: u16)
        requires
            old(self).wf(),
            oldest_idx <= youngest_idx < old(self).chunks_count,
        ensures
            final(self).wf(),
            final(self).same_storage(old(self)),
            final(self).displays(oldest_idx as int, youngest_idx as int),
    {
        self.display_state = true;
        self.youngest_display_chunk_idx = youngest_idx;
        self.oldest_display_chunk_idx = oldest_idx;
    }

    /// Moves the markers, leaving the display state as it is.
    pub fn update_display_markers(&mut self, oldest_idx: u16, youngest_idx: u16)
        requires
            old(self).wf(),
            old(self).display_state ==> oldest_idx <= youngest_idx < old(self).chunks_count,
        ensures
            final(self).wf(),
            final(self).same_storage(old(self)),
            final(self).display_state == old(self).display_state,
            final(self).oldest_display_chunk_idx == oldest_idx,
            final(self).youngest_display_chunk_idx == youngest_idx,
    {
        self.youngest_display_chunk_idx = youngest_idx;
        self.oldest_display_chunk_idx = oldest_idx;
    }

    /// Copies of all messages from chunk `c`, offset `o` onwards.
    fn collect_from(&self, c: usize, o: usize) -> (r: Vec<MsgViewData>)
        requires
            self.wf(),
            c < self.chunks@.len(),
            o <= self.chunks@[c as int].msgs@.len(),
        ensures
            r@ == self.flat().subrange(CHUNK_SIZE * c + o, self.flat().len() as int),
    {
        let n = self.chunks.len();
        let mut out: Vec<MsgViewData> = Vec::new();
        copy_tail(&self.chunks[c].msgs, o, &mut out);
        let ghost head = self.chunks@[c as int].msgs@.subrange(o as int, self.chunks@[c as int].msgs@.len() as int);
        assert(self.chunks@.subrange(c + 1, c + 1) =~= Seq::<MsgChunk>::empty());
        assert(out@ =~= head + messages_of(self.chunks@.subrange(c + 1, c + 1)));
        let mut d = c + 1;
        while d < n
            invariant
                self.wf(),
                n == self.chunks@.len(),
                c < d <= n,
                out@ == head + messages_of(self.chunks@.subrange(c + 1, d as int)),
            decreases n - d,
        {
            copy_tail(&self.chunks[d].msgs, 0, &mut out);
            proof {
                let cs = self.chunks@;
                assert(cs.subrange(c + 1, d + 1).drop_last() =~= cs.subrange(c + 1, d as int));
                assert(cs[d as int].msgs@.subrange(0, cs[d as int].msgs@.len() as int) =~= cs[d as int].msgs@);
                let a = messages_of(cs.subrange(c + 1, d as int));
                assert(head + a + cs[d as int].msgs@ =~= head + (a + cs[d as int].msgs@));
            }
            d = d + 1;
        }
        proof {
            self.lemma_chunk_in_flat(c as int);
            let a = messages_of(self.chunks@.subrange(0, c as int));
            let b = self.chunks@[c as int].msgs@;
            let e = messages_of(self.chunks@.subrange(c + 1, n as int));
            assert(self.flat().subrange(CHUNK_SIZE * c + o, self.flat().len() as int) =~= b.subrange(
                o as int,
                b.len() as int,
            ) + e);
        }
        out
    }

    /// Messages younger than `earliest`, or the first view when `earliest`
    /// is `None`, with the display markers moved to the chunks returned.
    ///
    /// With `earliest`, the content starts right after that message, looked
    /// up in every chunk whose youngest message is not older than it by
    /// timestamp; nothing is returned, and nothing changes, when it is not
    /// stored there. With
    /// `with_limit`, content spanning more than one chunk is cut to the
    /// youngest chunk, or to the two youngest when the youngest is sparse.
    pub fn load_new_content(&mut self, earliest: Option<u128>, with_limit: bool) -> (r: Vec<MsgViewData>)
        requires
            old(self).wf(),
        ensures
            final(self).wf(),
            final(self).same_storage(old(self)),
            match earliest {
                None => if old(self).chunks@.len() == 0 {
                    r@.len() == 0 && *final(self) == *old(self)
                } else {
                    &&& r@ == old(self).flat().subrange(
                        CHUNK_SIZE * old(self).bootstrap_chunk(),
                        old(self).flat().len() as int,
                    )
                    &&& final(self).displays(old(self).bootstrap_chunk(), old(self).chunks@.len() - 1)
                },
                Some(key) => match old(self).resume_after(key) {
                    None => r@.len() == 0 && *final(self) == *old(self),
                    Some((c, o)) => {
                        let (sc, so) = old(self).limited_start(c, o, with_limit);
                        &&& r@ == old(self).flat().subrange(CHUNK_SIZE * sc + so, old(self).flat().len() as int)
                        &&& final(self).displays(sc, old(self).chunks@.len() - 1)
                    },
                },
            },
    {
        let n = self.chunks.len();
        match earliest {
            None => {
                if n == 0 {
                    return Vec::new();
                }
                let start = if n >= 2 && self.chunks[n - 1].msgs.len() < SPARSE_CHUNK {
                    n - 2
                } else {
                    n - 1
                };
                let r = self.collect_from(start, 0);
                self.set_display(start as u16, (n - 1) as u16);
                r
            },
            Some(key) => {
                let (c, j) = match self.first_hit(key, true) {
                    Some(hit) => hit,
                    None => {
                        return Vec::new();
                    },
                };
                proof {
                    lemma_first_hit_bounds(self.chunks@, key, true, 0);
                }
                let (rc, ro) = if j + 1 < CHUNK_SIZE {
                    (c, j + 1)
                } else if c + 1 < n {
                    (c + 1, 0)
                } else {
                    (c, CHUNK_SIZE)
                };
                let (sc, so) = if with_limit && rc + 1 < n {
                    if self.chunks[n - 1].msgs.len() < SPARSE_CHUNK {
                        if rc + 2 == n {
                            (rc, ro)
                        } else {
                            (n - 2, 0)
                        }
                    } else {
                        (n - 1, 0)
                    }
                } else {
                    (rc, ro)
                };
                let r = self.collect_from(sc, so);
                self.set_display(sc as u16, (n - 1) as u16);
                r
            },
        }
    }

    /// The next older chunk on display. Without a window, the window is
    /// established at the youngest chunk and that chunk is returned; nothing
    /// is returned, and nothing changes, when the oldest chunk is already on
    /// display or there are no chunks.
    pub fn load_older_chunk(&mut self) -> (r: Vec<MsgViewData>)
        requires
            old(self).wf(),
        ensures
            final(self).wf(),
            final(self).same_storage(old(self)),
            if !old(self).display_state {
                if old(self).chunks@.len() == 0 {
                    r@.len() == 0 && *final(self) == *old(self)
                } else {
                    &&& r@ == old(self).chunks@.last().msgs@
                    &&& final(self).displays(old(self).chunks@.len() - 1, old(self).chunks@.len() - 1)
                }
            } else if old(self).oldest_display_chunk_idx == 0 {
                r@.len() == 0 && *final(self) == *old(self)
            } else {
                &&& r@ == old(self).chunks@[old(self).oldest_display_chunk_idx - 1].msgs@
                &&& final(self).displays(
                    old(self).oldest_display_chunk_idx - 1,
                    old(self).youngest_display_chunk_idx as int,
                )
            },
    {
        let n = self.chunks.len();
        if !self.display_state {
            if n == 0 {
                return Vec::new();
            }
            self.set_display((n - 1) as u16, (n - 1) as u16);
            let mut out: Vec<MsgViewData> = Vec::new();
            copy_tail(&self.chunks[n - 1].msgs, 0, &mut out);
            assert(out@ =~= self.chunks@[n - 1 as int].msgs@);
            out
        } else {
            let oldest = self.oldest_display_chunk_idx;
            if oldest == 0 {
                return Vec::new();
            }
            self.oldest_display_chunk_idx = oldest - 1;
            let mut out: Vec<MsgViewData> = Vec::new();
            copy_tail(&self.chunks[(oldest - 1) as usize].msgs, 0, &mut out);
            assert(out@ =~= self.chunks@[oldest - 1].msgs@);
            out
        }
    }

}


/// Appending a message whose key is not below the youngest stored key keeps
/// the whole history in key order; [`RoomMsgChunks::append_new_msg`] makes
/// the history `h.flat().push(msg)`.
pub proof fn lemma_append_keeps_order(h: RoomMsgChunks, msg: MsgViewData)
    requires
        h.wf(),
        sorted_by_key(h.flat()),
        h.flat().len() > 0 ==> h.flat().last().key() <= msg.key(),
    ensures
        sorted_by_key(h.flat().push(msg)),
{
    let s = h.flat().push(msg);
    assert forall|i: int, j: int| 0 <= i <= j < s.len() implies s[i].key() <= s[j].key() by {
        if j == s.len() - 1 && i < j {
            assert(h.flat()[i].key() <= h.flat().last().key());
        }
    }
}

/// Every chunk but the youngest holds exactly [`CHUNK_SIZE`] messages, and
/// the youngest holds between 1 and [`CHUNK_SIZE`] whenever any is stored.
pub proof fn lemma_chunk_capacity(h: RoomMsgChunks)
    requires
        h.wf(),
    ensures
        forall|c: int| 0 <= c < h.chunks@.len() - 1 ==> (#[trigger] h.chunks@[c]).count == CHUNK_SIZE,
        h.total_msgs > 0 ==> h.chunks@.len() > 0 && 1 <= h.chunks@.last().count <= CHUNK_SIZE,
{
    if h.chunks@.len() == 0 {
        assert(h.flat() =~= Seq::<MsgViewData>::empty());
    } else {
        assert(h.chunks@.last() == h.chunks@[h.chunks@.len() - 1]);
    }
    assert forall|c: int| 0 <= c < h.chunks@.len() - 1 implies (#[trigger] h.chunks@[c]).count == CHUNK_SIZE by {
        assert(h.chunks@[c].wf());
    }
}

proof fn lemma_first_index_at(msgs: Seq<MsgViewData>, key: u128, i: int, j: int)
    requires
        0 <= i <= j < msgs.len(),
        msgs[j].key() == key,
        forall|k: int| i <= k < j ==> (#[trigger] msgs[k]).key() != key,
    ensures
        first_index_from(msgs, key, i) == Some(j),
    decreases j - i,
{
    if i < j {
        lemma_first_index_at(msgs, key, i + 1, j);
    }
}

proof fn lemma_first_index_none(msgs: Seq<MsgViewData>, key: u128, i: int)
    requires
        0 <= i,
        forall|m: int| i <= m < msgs.len() ==> (#[trigger] msgs[m]).key() != key,
    ensures
        first_index_from(msgs, key, i) is None,
    decreases msgs.len() - i,
{
    if i < msgs.len() {
        lemma_first_index_none(msgs, key, i + 1);
    }
}

proof fn lemma_first_hit_skip(chunks: Seq<MsgChunk>, key: u128, by_timestamp: bool, c: int, target: int)
    requires
        0 <= c <= target <= chunks.len(),
        forall|d: int|
            c <= d < target ==> !(searched(#[trigger] chunks[d], key, by_timestamp) && first_index_from(
                chunks[d].msgs@,
                key,
                0,
            ) is Some),
    ensures
        first_hit_from(chunks, key, by_timestamp, c) == first_hit_from(chunks, key, by_timestamp, target),
    decreases target - c,
{
    if c < target {
        lemma_first_hit_skip(chunks, key, by_timestamp, c + 1, target);
    }
}

/// With unique ascending keys, a lookup by either rule stops at the chunk
/// and index where a stored message lies.
proof fn lemma_stored_located(h: RoomMsgChunks, k: int, by_timestamp: bool)
    requires
        h.wf(),
        forall|i: int, j: int| 0 <= i < j < h.flat().len() ==> h.flat()[i].key() < h.flat()[j].key(),
        0 <= k < h.flat().len(),
    ensures
        first_hit_from(h.chunks@, h.flat()[k].key(), by_timestamp, 0) == Some(
            (k / (CHUNK_SIZE as int), k % (CHUNK_SIZE as int)),
        ),
        0 <= k / (CHUNK_SIZE as int) < h.chunks@.len(),
        0 <= k % (CHUNK_SIZE as int) < h.chunks@[k / (CHUNK_SIZE as int)].msgs@.len(),
        h.chunks@[k / (CHUNK_SIZE as int)].msgs@[k % (CHUNK_SIZE as int)] == h.flat()[k],
{
    let cs = h.chunks@;
    let n = cs.len() as int;
    let flat = h.flat();
    let key = flat[k].key();
    if n == 0 {
        assert(flat =~= Seq::<MsgViewData>::empty());
    }
    h.lemma_total();
    let c = k / (CHUNK_SIZE as int);
    let j = k % (CHUNK_SIZE as int);
    assert(k == CHUNK_SIZE * c + j && 0 <= j < CHUNK_SIZE);
    assert(c < n);
    assert(cs[c].wf());
    assert(j < cs[c].msgs@.len()) by {
        if c < n - 1 {
            assert(cs[c].msgs@.len() == CHUNK_SIZE);
        }
    }
    h.lemma_chunk_in_flat(c);
    assert(cs[c].msgs@[j] == flat[k]);
    assert forall|d: int|
        0 <= d < c implies !(searched(#[trigger] cs[d], key, by_timestamp) && first_index_from(
        cs[d].msgs@,
        key,
        0,
    ) is Some) by {
        h.lemma_chunk_in_flat(d);
        assert(cs[d].wf());
        assert(cs[d].msgs@.len() == CHUNK_SIZE);
        assert forall|m: int| 0 <= m < cs[d].msgs@.len() implies (#[trigger] cs[d].msgs@[m]).key() != key by {
            assert(flat[CHUNK_SIZE * d + m] == cs[d].msgs@[m]);
        }
        lemma_first_index_none(cs[d].msgs@, key, 0);
    }
    lemma_first_hit_skip(cs, key, by_timestamp, 0, c);
    let len_c = cs[c].msgs@.len() as int;
    assert(cs[c].last == cs[c].msgs@[len_c - 1].key());
    assert(flat[CHUNK_SIZE * c + (len_c - 1)] == cs[c].msgs@[len_c - 1]);
    assert(cs[c].last >= key);
    assert(searched(cs[c], key, by_timestamp)) by {
        vstd::arithmetic::div_mod::lemma_div_is_ordered(
            key as int,
            cs[c].last as int,
            RAND_BITS_DIVISOR as int,
        );
    }
    assert forall|i: int| 0 <= i < j implies (#[trigger] cs[c].msgs@[i]).key() != key by {
        assert(flat[CHUNK_SIZE * c + i] == cs[c].msgs@[i]);
    }
    lemma_first_index_at(cs[c].msgs@, key, 0, j);
}

/// When keys are unique and ascending, [`RoomMsgChunks::find_msg`] finds
/// every stored message by its key.
pub proof fn lemma_find_stored(h: RoomMsgChunks, k: int)
    requires
        h.wf(),
        forall|i: int, j: int| 0 <= i < j < h.flat().len() ==> h.flat()[i].key() < h.flat()[j].key(),
        0 <= k < h.flat().len(),
    ensures
        first_hit_from(h.chunks@, h.flat()[k].key(), false, 0) matches Some((c, j)) && h.chunks@[c].msgs@[j]
            == h.flat()[k],
{
    lemma_stored_located(h, k, false);
}

/// When keys are unique and ascending, fetching what is newer than a stored
/// message resumes right after it: without a limit,
/// [`RoomMsgChunks::load_new_content`] returns `h.flat()` from position
/// `k + 1` on.
pub proof fn lemma_fetch_after_stored(h: RoomMsgChunks, k: int)
    requires
        h.wf(),
        forall|i: int, j: int| 0 <= i < j < h.flat().len() ==> h.flat()[i].key() < h.flat()[j].key(),
        0 <= k < h.flat().len(),
    ensures
        h.resume_after(h.flat()[k].key()) matches Some((c, o)) && h.limited_start(c, o, false) == (c, o)
            && CHUNK_SIZE * c + o == k + 1,
{
    lemma_stored_located(h, k, true);
    let c = k / (CHUNK_SIZE as int);
    let j = k % (CHUNK_SIZE as int);
    let n = h.chunks@.len() as int;
    if j + 1 >= CHUNK_SIZE && c + 1 >= n {
        assert(c == n - 1);
    }
}

} // verus!
