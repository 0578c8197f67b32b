use crate::buffers::{bytes_content, bytes_from_vec, bytes_len, bytes_slice};
use crate::types::{queue_id, queue_id_of, Position};
use bytes::Bytes;
use bytesize::ByteSize;
use vstd::prelude::*;
use vstd::string::*;

verus! {

/// Whether two strings hold the same characters.
pub fn str_equals(a: &str, b: &str) -> (r: bool)
    ensures
        r == (a@ == b@),
{
    let n = a.unicode_len();
    if n != b.unicode_len() {
        return false;
    }
    let mut i: usize = 0;
    while i < n
        invariant
            n == a@.len() == b@.len(),
            i <= n,
            forall|k: int| 0 <= k < i ==> a@[k] == b@[k],
        decreases n - i,
    {
        if a.get_char(i) != b.get_char(i) {
            return false;
        }
        i = i + 1;
    }
    assert(a@ =~= b@);
    true
}

/// Lifecycle of a shard.
#[derive(Clone, Copy, Debug, PartialEq, Eq, Structural)]
pub enum ShardState {
    Unspecified,
    Open,
    Unavailable,
    Closed,
}

pub open spec fn shard_state_json_name(s: ShardState) -> Seq<char> {
    match s {
        ShardState::Unspecified => "unspecified"@,
        ShardState::Open => "open"@,
        ShardState::Unavailable => "unavailable"@,
        ShardState::Closed => "closed"@,
    }
}

/// The state whose JSON name is `name`, if any.
pub open spec fn shard_state_of_json_name(name: Seq<char>) -> Option<ShardState> {
    if name == "unspecified"@ {
        Some(ShardState::Unspecified)
    } else if name == "open"@ {
        Some(ShardState::Open)
    } else if name == "unavailable"@ {
        Some(ShardState::Unavailable)
    } else if name == "closed"@ {
        Some(ShardState::Closed)
    } else {
        None
    }
}

impl ShardState {
    pub fn is_open(&self) -> (r: bool)
        ensures
            r == (*self == ShardState::Open),
    {
        *self == ShardState::Open
    }

    pub fn is_unavailable(&self) -> (r: bool)
        ensures
            r == (*self == ShardState::Unavailable),
    {
        *self == ShardState::Unavailable
    }

    pub fn is_closed(&self) -> (r: bool)
        ensures
            r == (*self == ShardState::Closed),
    {
        *self == ShardState::Closed
    }

    pub fn as_json_str_name(&self) -> (r: &'static str)
        ensures
            r@ == shard_state_json_name(*self),
    {
        match self {
            ShardState::Unspecified => "unspecified",
            ShardState::Open => "open",
            ShardState::Unavailable => "unavailable",
            ShardState::Closed => "closed",
        }
    }

    /// The state whose JSON name is `name`, if any.
    pub fn from_json_str_name(name: &str) -> (r: Option<ShardState>)
        ensures
            r == shard_state_of_json_name(name@),
    {
        if str_equals(name, "unspecified") {
            Some(ShardState::Unspecified)
        } else if str_equals(name, "open") {
            Some(ShardState::Open)
        } else if str_equals(name, "unavailable") {
            Some(ShardState::Unavailable)
        } else if str_equals(name, "closed") {
            Some(ShardState::Closed)
        } else {
            None
        }
    }
}

/// Reading a state back from its JSON name gives the state.
pub proof fn lemma_shard_state_json_round_trip(s: ShardState, t: ShardState)
    ensures
        shard_state_of_json_name(shard_state_json_name(s)) == Some(s),
        shard_state_json_name(s) == shard_state_json_name(t) ==> s == t,
{
    reveal_strlit("unspecified");
    reveal_strlit("open");
    reveal_strlit("unavailable");
    reveal_strlit("closed");
    assert forall|u: ShardState, v: ShardState| u != v implies shard_state_json_name(u) != shard_state_json_name(v) by {
        assert(shard_state_json_name(u)[2] != shard_state_json_name(v)[2]);
    }
    assert(shard_state_json_name(ShardState::Unspecified) == "unspecified"@);
    assert(shard_state_json_name(ShardState::Open) == "open"@);
    assert(shard_state_json_name(ShardState::Unavailable) == "unavailable"@);
    assert(shard_state_json_name(ShardState::Closed) == "closed"@);
}

/// A shard as the control plane describes it.
pub struct Shard {
    pub index_uid: Option<String>,
    pub source_id: String,
    pub shard_id: Option<String>,
    pub shard_state: ShardState,
    pub leader_id: String,
    pub follower_id: Option<String>,
    pub publish_position_inclusive: Option<Position>,
}

impl Shard {
    /// The nodes that store the shard: the leader, then the follower if any.
    pub fn ingesters(&self) -> (r: Vec<String>)
        ensures
            r@.len() == (if self.follower_id is Some { 2int } else { 1int }),
            r@[0]@ == self.leader_id@,
            self.follower_id matches Some(f) ==> r@[1]@ == f@,
    {
        let mut r: Vec<String> = Vec::new();
        r.push(self.leader_id.clone());
        match &self.follower_id {
            Some(f) => r.push(f.clone()),
            None => {},
        }
        r
    }

    pub fn shard_state(&self) -> (r: ShardState)
        ensures
            r == self.shard_state,
    {
        self.shard_state
    }

    pub fn index_uid(&self) -> (r: &String)
        requires
            self.index_uid is Some,
        ensures
            *r == self.index_uid->0,
    {
        self.index_uid.as_ref().unwrap()
    }

    pub fn shard_id(&self) -> (r: &String)
        requires
            self.shard_id is Some,
        ensures
            *r == self.shard_id->0,
    {
        self.shard_id.as_ref().unwrap()
    }

    pub fn is_open(&self) -> (r: bool)
        ensures
            r == (self.shard_state == ShardState::Open),
    {
        self.shard_state().is_open()
    }

    pub fn is_unavailable(&self) -> (r: bool)
        ensures
            r == (self.shard_state == ShardState::Unavailable),
    {
        self.shard_state().is_unavailable()
    }

    pub fn is_closed(&self) -> (r: bool)
        ensures
            r == (self.shard_state == ShardState::Closed),
    {
        self.shard_state().is_closed()
    }

    pub fn queue_id(&self) -> (r: String)
        requires
            self.index_uid is Some,
            self.shard_id is Some,
        ensures
            r@ == queue_id_of((self.index_uid->0)@, self.source_id@, (self.shard_id->0)@),
    {
        queue_id(self.index_uid().as_str(), self.source_id.as_str(), self.shard_id().as_str())
    }

    pub fn publish_position_inclusive(&self) -> (r: &Position)
        requires
            self.publish_position_inclusive is Some,
        ensures
            *r == self.publish_position_inclusive->0,
    {
        self.publish_position_inclusive.as_ref().unwrap()
    }
}

/// Total length of the first `i` records.
pub open spec fn prefix_len(lengths: Seq<u32>, i: int) -> int
    decreases i,
{
    if i <= 0 {
        0
    } else {
        prefix_len(lengths, i - 1) + lengths[i - 1] as int
    }
}

proof fn lemma_prefix_len_monotone(lengths: Seq<u32>, i: int, j: int)
    requires
        0 <= i <= j,
    ensures
        prefix_len(lengths, i) <= prefix_len(lengths, j),
    decreases j - i,
{
    if i < j {
        lemma_prefix_len_monotone(lengths, i, j - 1);
    }
}

/// Whether records of the given lengths fit in `buffer`.
fn lengths_fit_in(buffer: &Bytes, lengths: &Vec<u32>) -> (r: bool)
    ensures
        r == (prefix_len(lengths@, lengths@.len() as int) <= bytes_content(*buffer).len()),
{
    let total = bytes_len(buffer);
    let mut used: usize = 0;
    let mut i: usize = 0;
    while i < lengths.len()
        invariant
            total == bytes_content(*buffer).len(),
            i <= lengths@.len(),
            used == prefix_len(lengths@, i as int),
            used <= total,
        decreases lengths@.len() - i,
    {
        if lengths[i] as usize > total - used {
            proof { lemma_prefix_len_monotone(lengths@, i + 1, lengths@.len() as int); }
            return false;
        }
        used = used + lengths[i] as usize;
        i = i + 1;
    }
    true
}

/// Cuts `buffer` into consecutive records of the given lengths.
fn split_buffer(buffer: &Bytes, lengths: &Vec<u32>) -> (r: Vec<Bytes>)
    requires
        prefix_len(lengths@, lengths@.len() as int) <= bytes_content(*buffer).len(),
    ensures
        r@.len() == lengths@.len(),
        forall|i: int| 0 <= i < r@.len() ==> bytes_content(#[trigger] r@[i]) == bytes_content(*buffer).subrange(
            prefix_len(lengths@, i), prefix_len(lengths@, i + 1)),
{
    let total = bytes_len(buffer);
    let mut r: Vec<Bytes> = Vec::new();
    let mut start: usize = 0;
    let mut i: usize = 0;
    while i < lengths.len()
        invariant
            prefix_len(lengths@, lengths@.len() as int) <= bytes_content(*buffer).len(),
            total == bytes_content(*buffer).len(),
            i <= lengths@.len(),
            start == prefix_len(lengths@, i as int),
            r@.len() == i,
            forall|k: int| 0 <= k < i ==> bytes_content(#[trigger] r@[k]) == bytes_content(*buffer).subrange(
                prefix_len(lengths@, k), prefix_len(lengths@, k + 1)),
        decreases lengths@.len() - i,
    {
        proof { lemma_prefix_len_monotone(lengths@, i + 1, lengths@.len() as int); }
        let end = start + lengths[i] as usize;
        r.push(bytes_slice(buffer, start, end));
        start = end;
        i = i + 1;
    }
    r
}

/// The UTF-8 bytes of the texts of `texts`, back to back.
pub open spec fn concat_bytes(texts: Seq<&str>) -> Seq<u8>
    decreases texts.len(),
{
    if texts.len() == 0 {
        Seq::empty()
    } else {
        concat_bytes(texts.drop_last()) + texts.last().spec_bytes()
    }
}

/// Lays out texts back to back: their bytes, and the length of each.
fn pack_texts(texts: &Vec<&str>) -> (r: (Vec<u8>, Vec<u32>))
    requires
        forall|i: int| 0 <= i < texts@.len() ==> (#[trigger] texts@[i]).spec_bytes().len() <= u32::MAX,
    ensures
        r.0@ == concat_bytes(texts@),
        r.1@.len() == texts@.len(),
        forall|i: int| 0 <= i < texts@.len() ==> r.1@[i] == (#[trigger] texts@[i]).spec_bytes().len(),
{
    let mut buffer: Vec<u8> = Vec::new();
    let mut lengths: Vec<u32> = Vec::new();
    let mut i: usize = 0;
    while i < texts.len()
        invariant
            forall|k: int| 0 <= k < texts@.len() ==> (#[trigger] texts@[k]).spec_bytes().len() <= u32::MAX,
            i <= texts@.len(),
            buffer@ == concat_bytes(texts@.take(i as int)),
            lengths@.len() == i,
            forall|k: int| 0 <= k < i ==> lengths@[k] == (#[trigger] texts@[k]).spec_bytes().len(),
        decreases texts@.len() - i,
    {
        let bytes = texts[i].as_bytes();
        let ghost start = buffer@;
        let mut j: usize = 0;
        while j < bytes.len()
            invariant
                j <= bytes@.len(),
                buffer@ == start + bytes@.take(j as int),
            decreases bytes@.len() - j,
        {
            buffer.push(bytes[j]);
            j = j + 1;
            assert(buffer@ =~= start + bytes@.take(j as int));
        }
        assert(texts@.take(i + 1).drop_last() =~= texts@.take(i as int));
        assert(bytes@.take(j as int) =~= bytes@);
        lengths.push(texts[i].len() as u32);
        i = i + 1;
    }
    assert(texts@.take(texts@.len() as int) =~= texts@);
    (buffer, lengths)
}

/// A batch of documents: their bytes back to back, and the length of each.
pub struct DocBatchV2 {
    pub doc_buffer: Bytes,
    pub doc_lengths: Vec<u32>,
}

impl DocBatchV2 {
    /// Whether the document lengths fit in the buffer, as `docs` needs.
    pub fn lengths_fit(&self) -> (r: bool)
        ensures
            r == (prefix_len(self.doc_lengths@, self.doc_lengths@.len() as int) <= bytes_content(self.doc_buffer).len()),
    {
        lengths_fit_in(&self.doc_buffer, &self.doc_lengths)
    }

    /// The documents, in order.
    pub fn docs(self) -> (r: Vec<Bytes>)
        requires
            prefix_len(self.doc_lengths@, self.doc_lengths@.len() as int) <= bytes_content(self.doc_buffer).len(),
        ensures
            r@.len() == self.doc_lengths@.len(),
            forall|i: int| 0 <= i < r@.len() ==> bytes_content(#[trigger] r@[i]) == bytes_content(self.doc_buffer).subrange(
                prefix_len(self.doc_lengths@, i), prefix_len(self.doc_lengths@, i + 1)),
    {
        split_buffer(&self.doc_buffer, &self.doc_lengths)
    }

    /// A batch of the given documents.
    pub fn for_test(docs: Vec<&str>) -> (r: DocBatchV2)
        requires
            forall|i: int| 0 <= i < docs@.len() ==> (#[trigger] docs@[i]).spec_bytes().len() <= u32::MAX,
        ensures
            bytes_content(r.doc_buffer) == concat_bytes(docs@),
            r.doc_lengths@.len() == docs@.len(),
            forall|i: int| 0 <= i < docs@.len() ==> r.doc_lengths@[i] == (#[trigger] docs@[i]).spec_bytes().len(),
    {
        let (doc_buffer, doc_lengths) = pack_texts(&docs);
        DocBatchV2 { doc_lengths, doc_buffer: bytes_from_vec(doc_buffer) }
    }

    pub fn is_empty(&self) -> (r: bool)
        ensures
            r == (self.doc_lengths@.len() == 0),
    {
        self.doc_lengths.len() == 0
    }

    pub fn num_bytes(&self) -> (r: usize)
        ensures
            r == bytes_content(self.doc_buffer).len(),
    {
        bytes_len(&self.doc_buffer)
    }

    pub fn num_docs(&self) -> (r: usize)
        ensures
            r == self.doc_lengths@.len(),
    {
        self.doc_lengths.len()
    }
}

/// A batch of encoded WAL records: their bytes back to back, and the length of each.
pub struct MRecordBatch {
    pub mrecord_buffer: Bytes,
    pub mrecord_lengths: Vec<u32>,
}

impl MRecordBatch {
    /// Whether the record lengths fit in the buffer, as `encoded_mrecords` needs.
    pub fn lengths_fit(&self) -> (r: bool)
        ensures
            r == (prefix_len(self.mrecord_lengths@, self.mrecord_lengths@.len() as int) <= bytes_content(
                self.mrecord_buffer,
            ).len()),
    {
        lengths_fit_in(&self.mrecord_buffer, &self.mrecord_lengths)
    }

    /// The encoded records, in order.
    pub fn encoded_mrecords(&self) -> (r: Vec<Bytes>)
        requires
            prefix_len(self.mrecord_lengths@, self.mrecord_lengths@.len() as int) <= bytes_content(
                self.mrecord_buffer,
            ).len(),
        ensures
            r@.len() == self.mrecord_lengths@.len(),
            forall|i: int| 0 <= i < r@.len() ==> bytes_content(#[trigger] r@[i]) == bytes_content(self.mrecord_buffer).subrange(
                prefix_len(self.mrecord_lengths@, i), prefix_len(self.mrecord_lengths@, i + 1)),
    {
        split_buffer(&self.mrecord_buffer, &self.mrecord_lengths)
    }

    /// A batch of the given encoded records.
    pub fn for_test(mrecords: Vec<&str>) -> (r: Option<MRecordBatch>)
        requires
            forall|i: int| 0 <= i < mrecords@.len() ==> (#[trigger] mrecords@[i]).spec_bytes().len() <= u32::MAX,
        ensures
            r matches Some(b) && bytes_content(b.mrecord_buffer) == concat_bytes(mrecords@)
                && b.mrecord_lengths@.len() == mrecords@.len()
                && forall|i: int| 0 <= i < mrecords@.len() ==> b.mrecord_lengths@[i] == (
                #[trigger] mrecords@[i]).spec_bytes().len(),
    {
        let (mrecord_buffer, mrecord_lengths) = pack_texts(&mrecords);
        Some(MRecordBatch { mrecord_lengths, mrecord_buffer: bytes_from_vec(mrecord_buffer) })
    }

    pub fn is_empty(&self) -> (r: bool)
        ensures
            r == (self.mrecord_lengths@.len() == 0),
    {
        self.mrecord_lengths.len() == 0
    }

    /// The size of the batch on the wire: the bytes plus four for each
    /// length, capped at `u64::MAX`.
    pub fn estimate_size(&self) -> (r: ByteSize)
        ensures
            r.0 == (if bytes_content(self.mrecord_buffer).len() + 4 * self.mrecord_lengths@.len() > u64::MAX {
                u64::MAX as int
            } else {
                (bytes_content(self.mrecord_buffer).len() + 4 * self.mrecord_lengths@.len()) as int
            }),
    {
        let num_bytes = bytes_len(&self.mrecord_buffer) as u64;
        let count = self.mrecord_lengths.len() as u64;
        let length_bytes = if count > u64::MAX / 4 {
            u64::MAX
        } else {
            4 * count
        };
        ByteSize(num_bytes.saturating_add(length_bytes))
    }

    pub fn num_mrecords(&self) -> (r: usize)
        ensures
            r == self.mrecord_lengths@.len(),
    {
        self.mrecord_lengths.len()
    }
}

/// Shards of one source: their ids, and optionally their positions.
pub struct ShardIds {
    pub index_uid: Option<String>,
    pub source_id: String,
    pub shard_ids: Vec<String>,
    pub shard_positions: Vec<ShardIdPosition>,
}

impl ShardIds {
    pub fn index_uid(&self) -> (r: &String)
        requires
            self.index_uid is Some,
        ensures
            *r == self.index_uid->0,
    {
        self.index_uid.as_ref().unwrap()
    }

    /// The queue id of each shard, in order.
    pub fn queue_ids(&self) -> (r: Vec<String>)
        requires
            self.index_uid is Some,
        ensures
            r@.len() == self.shard_ids@.len(),
            forall|i: int| 0 <= i < r@.len() ==> (#[trigger] r@[i])@ == queue_id_of(
                (self.index_uid->0)@, self.source_id@, self.shard_ids@[i]@),
    {
        let mut r: Vec<String> = Vec::new();
        let mut i: usize = 0;
        while i < self.shard_ids.len()
            invariant
                self.index_uid is Some,
                i <= self.shard_ids@.len(),
                r@.len() == i,
                forall|k: int| 0 <= k < i ==> (#[trigger] r@[k])@ == queue_id_of(
                    (self.index_uid->0)@, self.source_id@, self.shard_ids@[k]@),
            decreases self.shard_ids@.len() - i,
        {
            r.push(queue_id(self.index_uid().as_str(), self.source_id.as_str(), self.shard_ids[i].as_str()));
            i = i + 1;
        }
        r
    }
}

/// A shard id and the position up to which it has been published.
pub struct ShardIdPosition {
    pub shard_id: Option<String>,
    pub publish_position_inclusive: Option<Position>,
}

impl ShardIdPosition {
    pub open spec fn is_complete(&self) -> bool {
        self.shard_id is Some && self.publish_position_inclusive is Some
    }

    pub fn shard_id(&self) -> (r: &String)
        requires
            self.shard_id is Some,
        ensures
            *r == self.shard_id->0,
    {
        self.shard_id.as_ref().unwrap()
    }

    pub fn publish_position_inclusive(&self) -> (r: &Position)
        requires
            self.publish_position_inclusive is Some,
        ensures
            *r == self.publish_position_inclusive->0,
    {
        self.publish_position_inclusive.as_ref().unwrap()
    }
}

/// Shards of one source with a position each.
pub struct ShardIdPositions {
    pub index_uid: Option<String>,
    pub source_id: String,
    pub shard_positions: Vec<ShardIdPosition>,
}

impl ShardIdPositions {
    pub open spec fn is_complete(&self) -> bool {
        &&& self.index_uid is Some
        &&& forall|i: int| 0 <= i < self.shard_positions@.len() ==> (#[trigger] self.shard_positions@[i]).is_complete()
    }

    pub fn index_uid(&self) -> (r: &String)
        requires
            self.index_uid is Some,
        ensures
            *r == self.index_uid->0,
    {
        self.index_uid.as_ref().unwrap()
    }

    /// Whether the index uid and every shard id and position are given.
    pub fn check_complete(&self) -> (r: bool)
        ensures
            r == self.is_complete(),
    {
        if self.index_uid.is_none() {
            return false;
        }
        let mut i: usize = 0;
        while i < self.shard_positions.len()
            invariant
                i <= self.shard_positions@.len(),
                forall|k: int| 0 <= k < i ==> (#[trigger] self.shard_positions@[k]).is_complete(),
            decreases self.shard_positions@.len() - i,
        {
            let p = &self.shard_positions[i];
            if p.shard_id.is_none() || p.publish_position_inclusive.is_none() {
                return false;
            }
            i = i + 1;
        }
        true
    }

    /// The queue id and position of each shard, in order.
    pub fn queue_id_positions(&self) -> (r: Vec<(String, Position)>)
        requires
            self.is_complete(),
        ensures
            r@.len() == self.shard_positions@.len(),
            forall|i: int| 0 <= i < r@.len() ==> (#[trigger] r@[i]).0@ == queue_id_of(
                (self.index_uid->0)@, self.source_id@, (self.shard_positions@[i].shard_id->0)@)
                && r@[i].1 == self.shard_positions@[i].publish_position_inclusive->0,
    {
        let mut r: Vec<(String, Position)> = Vec::new();
        let mut i: usize = 0;
        while i < self.shard_positions.len()
            invariant
                self.is_complete(),
                i <= self.shard_positions@.len(),
                r@.len() == i,
                forall|k: int| 0 <= k < i ==> (#[trigger] r@[k]).0@ == queue_id_of(
                    (self.index_uid->0)@, self.source_id@, (self.shard_positions@[k].shard_id->0)@)
                    && r@[k].1 == self.shard_positions@[k].publish_position_inclusive->0,
            decreases self.shard_positions@.len() - i,
        {
            let p = &self.shard_positions[i];
            assert(p.is_complete());
            let q = queue_id(self.index_uid().as_str(), self.source_id.as_str(), p.shard_id().as_str());
            r.push((q, *p.publish_position_inclusive()));
            i = i + 1;
        }
        r
    }
}

/// What the ingester asks the control plane about its shards.
pub struct InspectShardsRequest {
    pub shard_ids: Vec<ShardIds>,
}

/// What the control plane wants done with the shards it was asked about.
pub struct InspectShardsResponse {
    pub shards_to_delete: Vec<ShardIds>,
    pub shards_to_truncate: Vec<ShardIdPositions>,
}

} // verus!
