//! The ring buffer: messages of many lengths in one fixed buffer, claimed by
//! a writer, committed, and read in the order of claiming.
//!
//! A record takes the length of its header and its message, rounded up to
//! the alignment. Records never wrap: where the next record does not fit
//! before the end of the buffer, padding fills the end and the record starts
//! at the beginning. The buffer is used from one thread; for one thread the
//! disciplines of one writer and of many writers are the same.

use crate::common::AeronCError;
use std::collections::VecDeque;
use vstd::prelude::*;
use vstd::slice::slice_subrange;

verus! {

/// Every record starts at a multiple of this.
pub const AERON_RB_ALIGNMENT: usize = 8;

/// The length of the header that each record has before its message.
pub const AERON_RB_RECORD_HEADER_LENGTH: usize = 8;

/// The type id of a record that holds no message.
pub const AERON_RB_PADDING_MSG_TYPE_ID: i32 = -1;

/// The largest capacity: an index into the buffer is an `i32`.
pub const AERON_RB_MAX_CAPACITY: usize = 0x4000_0000;

/// How a claim ended.
#[allow(non_camel_case_types)]
#[derive(Debug, Clone, Copy, PartialEq, Eq, Hash, Structural)]
pub enum aeron_rb_write_result_stct {
    AERON_RB_SUCCESS,
    AERON_RB_ERROR,
    AERON_RB_FULL,
}

impl aeron_rb_write_result_stct {
    /// The number that stands for the result.
    pub open spec fn spec_code(self) -> int {
        match self {
            aeron_rb_write_result_stct::AERON_RB_SUCCESS => 0,
            aeron_rb_write_result_stct::AERON_RB_ERROR => -2,
            aeron_rb_write_result_stct::AERON_RB_FULL => -1,
        }
    }

    pub fn code(&self) -> (r: i32)
        ensures
            r == self.spec_code(),
    {
        match self {
            aeron_rb_write_result_stct::AERON_RB_SUCCESS => 0,
            aeron_rb_write_result_stct::AERON_RB_ERROR => -2,
            aeron_rb_write_result_stct::AERON_RB_FULL => -1,
        }
    }
}

/// What the reader of a controlled read says of one message.
#[allow(non_camel_case_types)]
#[derive(Debug, Clone, Copy, PartialEq, Eq, Hash, Structural)]
pub enum aeron_rb_read_action_stct {
    /// Leave the message in the buffer and stop reading.
    AERON_RB_ABORT,
    /// Take the message and stop reading.
    AERON_RB_BREAK,
    /// Take the message and go on.
    AERON_RB_COMMIT,
    /// Take the message and go on.
    AERON_RB_CONTINUE,
}

/// What a record holds.
#[derive(Debug, Clone, Copy, PartialEq, Eq, Structural)]
pub enum RecordState {
    /// Space that a writer is still filling.
    Claimed,
    /// A message that can be read.
    Committed,
    /// No message: the end of the buffer before a wrap, or a claim given up.
    Padding,
}

/// One record of the buffer.
#[derive(Debug, Clone, Copy, PartialEq, Eq, Structural)]
pub struct Record {
    /// Where the record starts in the buffer.
    pub index: usize,
    /// The length of the header and the message.
    pub length: usize,
    pub msg_type_id: i32,
    pub state: RecordState,
}

/// `length` rounded up to the alignment, which is 8.
pub open spec fn aligned(length: int) -> int {
    (length + 7) / 8 * 8
}

/// Where the record after `r` starts in a buffer of the capacity `capacity`.
pub open spec fn next_index(r: Record, capacity: int) -> int {
    let end = r.index + aligned(r.length as int);
    if end == capacity {
        0
    } else {
        end
    }
}

/// Where the message of the record starts.
pub open spec fn body_index(r: Record) -> int {
    r.index + AERON_RB_RECORD_HEADER_LENGTH
}

/// The record lies in the buffer, aligned and whole.
pub open spec fn record_fits(r: Record, capacity: int) -> bool {
    &&& 8 <= r.length
    &&& r.index % 8 == 0
    &&& r.index + aligned(r.length as int) <= capacity
}

/// How many bytes the records take together.
pub open spec fn total(records: Seq<Record>) -> int
    decreases records.len(),
{
    if records.len() == 0 {
        0
    } else {
        total(records.drop_last()) + aligned(records.last().length as int)
    }
}

/// One record more takes its own bytes more.
pub proof fn lemma_total_push(records: Seq<Record>, r: Record)
    ensures
        total(records.push(r)) == total(records) + aligned(r.length as int),
{
    assert(records.push(r).drop_last() =~= records);
}

/// Records take no less than nothing, and without the oldest its bytes less.
pub proof fn lemma_total_skip(records: Seq<Record>)
    ensures
        0 <= total(records),
        records.len() > 0 ==> total(records.skip(1)) == total(records) - aligned(
            records[0].length as int,
        ),
    decreases records.len(),
{
    if records.len() > 0 {
        lemma_total_skip(records.drop_last());
        if records.len() == 1 {
            assert(records.skip(1) =~= Seq::<Record>::empty());
            assert(records.drop_last() =~= Seq::<Record>::empty());
        } else {
            assert(records.skip(1).drop_last() =~= records.drop_last().skip(1));
            assert(records.skip(1).last() == records.last());
            assert(records.drop_last()[0] == records[0]);
        }
    }
}

/// A record that changes but keeps its length leaves the bytes as they are.
pub proof fn lemma_total_update(records: Seq<Record>, k: int, r: Record)
    requires
        0 <= k < records.len(),
        r.length == records[k].length,
    ensures
        total(records.update(k, r)) == total(records),
    decreases records.len(),
{
    let after = records.update(k, r);
    if k == records.len() - 1 {
        assert(after.drop_last() =~= records.drop_last());
    } else {
        assert(after.drop_last() =~= records.drop_last().update(k, r));
        lemma_total_update(records.drop_last(), k, r);
    }
}

/// The ring buffer, as the contracts see it.
pub struct RingView {
    pub capacity: int,
    pub max_message_length: int,
    /// Where the oldest record starts.
    pub head_index: int,
    /// Where the next record will start.
    pub tail_index: int,
    /// How many bytes the records take.
    pub used: int,
    /// The records, the oldest first.
    pub records: Seq<Record>,
    /// The buffer.
    pub bytes: Seq<u8>,
}

impl RingView {
    /// What holds of every ring buffer.
    pub open spec fn wf(self) -> bool {
        &&& 8 <= self.capacity <= AERON_RB_MAX_CAPACITY
        &&& self.capacity % 8 == 0
        &&& 0 <= self.max_message_length
        &&& self.max_message_length + 8 <= self.capacity
        &&& 0 <= self.head_index < self.capacity
        &&& 0 <= self.tail_index < self.capacity
        &&& self.head_index % 8 == 0
        &&& self.tail_index % 8 == 0
        &&& 0 <= self.used <= self.capacity
        &&& self.tail_index == (if self.head_index + self.used >= self.capacity {
            self.head_index + self.used - self.capacity
        } else {
            self.head_index + self.used
        })
        &&& forall|i: int|
            0 <= i < self.records.len() ==> record_fits(#[trigger] self.records[i], self.capacity)
        &&& forall|i: int|
            0 <= i < self.records.len() - 1 ==> (#[trigger] self.records[i + 1]).index
                == next_index(self.records[i], self.capacity)
        &&& self.records.len() > 0 ==> self.records[0].index == self.head_index && next_index(
            self.records.last(),
            self.capacity,
        ) == self.tail_index
        &&& self.used == total(self.records)
    }

    /// How many bytes a record for a message of `length` bytes takes.
    pub open spec fn required(length: int) -> int {
        aligned(length + AERON_RB_RECORD_HEADER_LENGTH)
    }

    /// The record for the message does not fit before the end of the buffer.
    pub open spec fn must_wrap(self, length: int) -> bool {
        Self::required(length) > self.capacity - self.tail_index
    }

    /// What a claim of `length` bytes for a message of the type
    /// `msg_type_id` returns: the index of the message's space, or a
    /// negative result. A type id below one and a length above the greatest
    /// are errors. The buffer is full where the record does not fit into
    /// what is free, or would wrap and does not fit before the oldest record.
    pub open spec fn claim_result(self, msg_type_id: i32, length: int) -> int {
        if msg_type_id < 1 || length > self.max_message_length {
            -2
        } else if Self::required(length) > self.capacity - self.used {
            -1
        } else if self.must_wrap(length) {
            if Self::required(length) > self.head_index {
                -1
            } else {
                AERON_RB_RECORD_HEADER_LENGTH as int
            }
        } else {
            self.tail_index + AERON_RB_RECORD_HEADER_LENGTH
        }
    }

    /// The record that a claim makes.
    pub open spec fn claimed_record(self, msg_type_id: i32, length: int) -> Record {
        Record {
            index: if self.must_wrap(length) {
                0usize
            } else {
                self.tail_index as usize
            },
            length: (length + AERON_RB_RECORD_HEADER_LENGTH) as usize,
            msg_type_id,
            state: RecordState::Claimed,
        }
    }

    /// The padding that a claim leaves at the end of the buffer.
    pub open spec fn padding_record(self) -> Record {
        Record {
            index: self.tail_index as usize,
            length: (self.capacity - self.tail_index) as usize,
            msg_type_id: AERON_RB_PADDING_MSG_TYPE_ID,
            state: RecordState::Padding,
        }
    }

    /// The buffer after a claim that succeeded.
    pub open spec fn claimed(self, msg_type_id: i32, length: int) -> RingView {
        let r = self.claimed_record(msg_type_id, length);
        if self.must_wrap(length) {
            RingView {
                records: self.records.push(self.padding_record()).push(r),
                used: self.used + (self.capacity - self.tail_index) + Self::required(length),
                tail_index: Self::required(length),
                ..self
            }
        } else {
            RingView {
                records: self.records.push(r),
                used: self.used + Self::required(length),
                tail_index: next_index(r, self.capacity),
                ..self
            }
        }
    }

    /// The record at `k` is the first that is claimed and whose message
    /// starts at `index`.
    pub open spec fn is_claimed_at(self, index: int, k: int) -> bool {
        &&& 0 <= k < self.records.len()
        &&& self.records[k].state == RecordState::Claimed
        &&& body_index(self.records[k]) == index
        &&& forall|j: int|
            0 <= j < k ==> !((#[trigger] self.records[j]).state == RecordState::Claimed
                && body_index(self.records[j]) == index)
    }

    /// No claimed record has its message at `index`.
    pub open spec fn none_claimed_at(self, index: int) -> bool {
        forall|j: int|
            0 <= j < self.records.len() ==> !((#[trigger] self.records[j]).state
                == RecordState::Claimed && body_index(self.records[j]) == index)
    }

    /// The buffer after the record at `k` got the state `state`.
    pub open spec fn settled(self, k: int, state: RecordState) -> RingView {
        RingView {
            records: self.records.update(
                k,
                Record {
                    state,
                    msg_type_id: if state == RecordState::Padding {
                        AERON_RB_PADDING_MSG_TYPE_ID
                    } else {
                        self.records[k].msg_type_id
                    },
                    ..self.records[k]
                },
            ),
            ..self
        }
    }

    /// How many records a read of at most `limit` messages takes from the
    /// front of `records`: it stops before a record that is still claimed,
    /// passes over padding, and counts the messages.
    pub open spec fn taken(records: Seq<Record>, limit: int) -> int
        decreases records.len(),
    {
        if records.len() == 0 || limit <= 0 || records[0].state == RecordState::Claimed {
            0
        } else if records[0].state == RecordState::Padding {
            1 + Self::taken(records.skip(1), limit)
        } else {
            1 + Self::taken(records.skip(1), limit - 1)
        }
    }

    /// How many messages such a read hands over.
    pub open spec fn messages(records: Seq<Record>, limit: int) -> int
        decreases records.len(),
    {
        if records.len() == 0 || limit <= 0 || records[0].state == RecordState::Claimed {
            0
        } else if records[0].state == RecordState::Padding {
            Self::messages(records.skip(1), limit)
        } else {
            1 + Self::messages(records.skip(1), limit - 1)
        }
    }

    /// The buffer without its oldest record.
    pub open spec fn popped(self) -> RingView {
        RingView {
            records: self.records.skip(1),
            head_index: next_index(self.records[0], self.capacity),
            used: self.used - aligned(self.records[0].length as int),
            ..self
        }
    }

    /// The buffer without its `k` oldest records.
    pub open spec fn without_oldest(self, k: int) -> RingView
        decreases k,
    {
        if k <= 0 {
            self
        } else {
            self.without_oldest(k - 1).popped()
        }
    }
}

/// The reader of a ring buffer: what is done with each message.
pub trait AeronRingBufferHandlerCallback {
    fn handle_aeron_rb_handler(&mut self, msg_type_id: i32, buffer: &[u8]);
}

/// The reader of a controlled read: it says of each message whether it is
/// taken and whether the read goes on.
pub trait AeronRingBufferControlledHandlerCallback {
    fn handle_aeron_controlled_rb_handler(
        &mut self,
        msg_type_id: i32,
        buffer: &[u8],
    ) -> aeron_rb_read_action_stct;
}

/// A ring buffer that owns its memory.
pub struct RingBuffer {
    buffer: Vec<u8>,
    records: VecDeque<Record>,
    head_index: usize,
    tail_index: usize,
    used: usize,
    capacity: usize,
    max_message_length: usize,
}

/// The ring buffer for one writer and one reader.
pub type AeronSpscRb = RingBuffer;

/// The ring buffer for many writers and one reader.
pub type AeronMpscRb = RingBuffer;

impl View for RingBuffer {
    type V = RingView;

    closed spec fn view(&self) -> RingView {
        RingView {
            capacity: self.capacity as int,
            max_message_length: self.max_message_length as int,
            head_index: self.head_index as int,
            tail_index: self.tail_index as int,
            used: self.used as int,
            records: self.records@,
            bytes: self.buffer@,
        }
    }
}

fn align(length: usize) -> (r: usize)
    requires
        length <= 2 * AERON_RB_MAX_CAPACITY,
    ensures
        r == aligned(length as int),
        r % 8 == 0,
        length <= r < length + 8,
{
    (length + 7) / 8 * 8
}

impl RingBuffer {
    /// The buffer is well-formed, and its memory has the length of its
    /// capacity.
    pub open spec fn wf(&self) -> bool {
        self@.wf() && self@.bytes.len() == self@.capacity
    }

    /// An empty ring buffer over `buffer`, for messages of at most
    /// `max_msg_size` bytes. The capacity is the length of `buffer`, which
    /// has to be a multiple of the alignment, not zero and not above the
    /// largest capacity, with room for the largest message and its header;
    /// else the error is `-1`.
    pub fn from_vec(buffer: Vec<u8>, max_msg_size: usize) -> (r: Result<Self, AeronCError>)
        ensures
            r is Ok <==> 8 <= buffer@.len() <= AERON_RB_MAX_CAPACITY && buffer@.len() % (AERON_RB_ALIGNMENT as nat) == 0
                && max_msg_size + 8 <= buffer@.len(),
            r matches Err(e) ==> e.code == -1,
            r matches Ok(rb) ==> rb.wf() && rb@ == (RingView {
                capacity: buffer@.len() as int,
                max_message_length: max_msg_size as int,
                head_index: 0,
                tail_index: 0,
                used: 0,
                records: Seq::<Record>::empty(),
                bytes: buffer@,
            }),
    {
        let capacity = buffer.len();
        if capacity < 8 || capacity > AERON_RB_MAX_CAPACITY || capacity % AERON_RB_ALIGNMENT != 0 || max_msg_size
            > capacity - 8 {
            return Err(AeronCError::from_code(-1));
        }
        Ok(
            RingBuffer {
                buffer,
                records: VecDeque::new(),
                head_index: 0,
                tail_index: 0,
                used: 0,
                capacity,
                max_message_length: max_msg_size,
            },
        )
    }

    /// An empty ring buffer of `capacity` bytes, all zero, for messages of
    /// at most `max_msg_size` bytes.
    pub fn new_with_capacity(capacity: usize, max_msg_size: usize) -> (r: Result<
        Self,
        AeronCError,
    >)
        ensures
            r is Ok <==> 8 <= capacity <= AERON_RB_MAX_CAPACITY && capacity % AERON_RB_ALIGNMENT == 0
                && max_msg_size + 8 <= capacity,
            r matches Err(e) ==> e.code == -1,
            r matches Ok(rb) ==> rb.wf() && rb@.capacity == capacity && rb@.max_message_length
                == max_msg_size && rb@.head_index == 0 && rb@.tail_index == 0 && rb@.used == 0
                && rb@.records == Seq::<Record>::empty() && forall|i: int|
                0 <= i < capacity ==> rb@.bytes[i] == 0u8,
    {
        if capacity > AERON_RB_MAX_CAPACITY {
            return Err(AeronCError::from_code(-1));
        }
        let buffer: Vec<u8> = vec![0u8; capacity];
        Self::from_vec(buffer, max_msg_size)
    }

    pub fn capacity(&self) -> (r: usize)
        ensures
            r == self@.capacity,
    {
        self.capacity
    }

    pub fn max_message_length(&self) -> (r: usize)
        ensures
            r == self@.max_message_length,
    {
        self.max_message_length
    }

    /// How many bytes the records take.
    pub fn size(&self) -> (r: usize)
        ensures
            r == self@.used,
    {
        self.used
    }

    /// Puts one record more at the tail.
    fn push_record(&mut self, record: Record)
        requires
            old(self).wf(),
            record.index == old(self)@.tail_index,
            record_fits(record, old(self)@.capacity),
            old(self)@.used + aligned(record.length as int) <= old(self)@.capacity,
        ensures
            final(self).wf(),
            final(self)@ == (RingView {
                records: old(self)@.records.push(record),
                used: old(self)@.used + aligned(record.length as int),
                tail_index: next_index(record, old(self)@.capacity),
                ..old(self)@
            }),
    {
        let ghost before = self@;
        let size = align(record.length);
        proof {
            lemma_total_push(before.records, record);
            lemma_total_skip(before.records);
        }
        self.records.push_back(record);
        self.used = self.used + size;
        self.tail_index = if record.index + size == self.capacity {
            0
        } else {
            record.index + size
        };
        proof {
            let now = self@.records;
            let n = before.records.len() as int;
            assert(now[n] == record);
            assert forall|i: int| 0 <= i < now.len() implies record_fits(
                #[trigger] now[i],
                self@.capacity,
            ) by {
                if i < n {
                    assert(now[i] == before.records[i]);
                }
            }
            assert forall|i: int| 0 <= i < now.len() - 1 implies (#[trigger] now[i + 1]).index
                == next_index(now[i], self@.capacity) by {
                if i + 1 < n {
                    assert(now[i] == before.records[i]);
                    assert(now[i + 1] == before.records[i + 1]);
                } else {
                    assert(now[i] == before.records.last());
                }
            }
            if n > 0 {
                assert(now[0] == before.records[0]);
            }
        }
    }

    /// Claims space for a message of `length` bytes of the type
    /// `msg_type_id`. What comes back is the index of the space in the
    /// buffer, or a negative result and nothing is changed.
    pub fn try_claim(&mut self, msg_type_id: i32, length: usize) -> (r: i32)
        requires
            old(self).wf(),
        ensures
            final(self).wf(),
            r == old(self)@.claim_result(msg_type_id, length as int),
            r < 0 ==> final(self)@ == old(self)@,
            r >= 0 ==> final(self)@ == old(self)@.claimed(msg_type_id, length as int),
    {
        if msg_type_id < 1 || length > self.max_message_length {
            return -2;
        }
        let required = align(length + AERON_RB_RECORD_HEADER_LENGTH);
        if required > self.capacity - self.used {
            return -1;
        }
        let to_end = self.capacity - self.tail_index;
        let ghost before = self@;
        if required > to_end {
            if required > self.head_index {
                return -1;
            }
            let padding = Record {
                index: self.tail_index,
                length: to_end,
                msg_type_id: AERON_RB_PADDING_MSG_TYPE_ID,
                state: RecordState::Padding,
            };
            let record = Record {
                index: 0,
                length: length + AERON_RB_RECORD_HEADER_LENGTH,
                msg_type_id,
                state: RecordState::Claimed,
            };
            assert(aligned(to_end as int) == to_end);
            assert(before.tail_index == before.head_index + before.used);
            self.push_record(padding);
            self.push_record(record);
            assert(self@.records == before.records.push(padding).push(record));
            8
        } else {
            let record = Record {
                index: self.tail_index,
                length: length + AERON_RB_RECORD_HEADER_LENGTH,
                msg_type_id,
                state: RecordState::Claimed,
            };
            self.push_record(record);
            (record.index + 8) as i32
        }
    }

    /// The part of the buffer from `idx` on that is `len` bytes long: the
    /// space of a claim, to be filled before the claim is committed.
    pub fn buffer_at_mut(&mut self, idx: usize, len: usize) -> (slot: &mut [u8])
        requires
            old(self).wf(),
            idx + len <= old(self)@.capacity,
        ensures
            slot@ == old(self)@.bytes.subrange(idx as int, idx + len),
            final(self)@.bytes == old(self)@.bytes.subrange(0, idx as int) + final(slot)@ + old(
                self,
            )@.bytes.subrange(idx + len, old(self)@.capacity),
            final(self)@.records == old(self)@.records,
            final(self)@.capacity == old(self)@.capacity,
            final(self)@.max_message_length == old(self)@.max_message_length,
            final(self)@.head_index == old(self)@.head_index,
            final(self)@.tail_index == old(self)@.tail_index,
            final(self)@.used == old(self)@.used,
            final(slot)@.len() == len ==> final(self).wf(),
    {
        let whole = self.buffer.as_mut_slice();
        let (_before, rest) = whole.split_at_mut(idx);
        let (slot, _after) = rest.split_at_mut(len);
        slot
    }

    /// The part of the buffer from `idx` on that is `len` bytes long.
    pub fn buffer_at(&self, idx: usize, len: usize) -> (slot: &[u8])
        requires
            self.wf(),
            idx + len <= self@.capacity,
        ensures
            slot@ == self@.bytes.subrange(idx as int, idx + len),
    {
        slice_subrange(self.buffer.as_slice(), idx, idx + len)
    }

    fn find_claimed(&self, index: i32) -> (r: Option<usize>)
        ensures
            match r {
                Some(k) => self@.is_claimed_at(index as int, k as int),
                None => self@.none_claimed_at(index as int),
            },
    {
        let mut k: usize = 0;
        while k < self.records.len()
            invariant
                k <= self.records.len(),
                forall|j: int|
                    0 <= j < k ==> !((#[trigger] self@.records[j]).state == RecordState::Claimed
                        && body_index(self@.records[j]) == index),
            decreases self.records.len() - k,
        {
            let r = self.records[k];
            let claimed = match r.state {
                RecordState::Claimed => true,
                _ => false,
            };
            if claimed && index >= 8 && r.index == (index - 8) as usize {
                return Some(k);
            }
            k += 1;
        }
        None
    }

    fn settle(&mut self, index: i32, state: RecordState) -> (r: Result<i32, AeronCError>)
        requires
            old(self).wf(),
        ensures
            final(self).wf(),
            match r {
                Ok(code) => code == 0 && exists|k: int|
                    old(self)@.is_claimed_at(index as int, k) && final(self)@ == old(
                        self,
                    )@.settled(k, state),
                Err(e) => e.code == -1 && old(self)@.none_claimed_at(index as int) && final(self)@
                    == old(self)@,
            },
    {
        match self.find_claimed(index) {
            Some(k) => {
                let ghost before = self@;
                let r = self.records[k];
                let msg_type_id = match state {
                    RecordState::Padding => AERON_RB_PADDING_MSG_TYPE_ID,
                    _ => r.msg_type_id,
                };
                let settled = Record { index: r.index, length: r.length, msg_type_id, state };
                let _ = self.records.remove(k);
                self.records.insert(k, settled);
                assert(self@.records =~= before.records.update(k as int, settled));
                assert(self@ == before.settled(k as int, state));
                assert(before.is_claimed_at(index as int, k as int));
                proof {
                    lemma_total_update(before.records, k as int, settled);
                    let now = self@.records;
                    assert forall|i: int| 0 <= i < now.len() implies record_fits(
                        #[trigger] now[i],
                        self@.capacity,
                    ) by {
                        assert(record_fits(before.records[i], before.capacity));
                    }
                    assert forall|i: int| 0 <= i < now.len() - 1 implies (
                    #[trigger] now[i + 1]).index == next_index(now[i], self@.capacity) by {
                        assert(before.records[i + 1].index == next_index(
                            before.records[i],
                            before.capacity,
                        ));
                    }
                }
                Ok(0)
            },
            None => Err(AeronCError::from_code(-1)),
        }
    }

    /// Commits the claim whose space starts at `index`: its message can be
    /// read from now on. Where nothing is claimed there, the error is `-1`.
    pub fn commit(&mut self, index: i32) -> (r: Result<i32, AeronCError>)
        requires
            old(self).wf(),
        ensures
            final(self).wf(),
            match r {
                Ok(code) => code == 0 && exists|k: int|
                    old(self)@.is_claimed_at(index as int, k) && final(self)@ == old(
                        self,
                    )@.settled(k, RecordState::Committed),
                Err(e) => e.code == -1 && old(self)@.none_claimed_at(index as int) && final(self)@
                    == old(self)@,
            },
    {
        self.settle(index, RecordState::Committed)
    }

    /// Gives the claim up whose space starts at `index`: the space becomes
    /// padding. Where nothing is claimed there, the error is `-1`.
    pub fn abort(&mut self, index: i32) -> (r: Result<i32, AeronCError>)
        requires
            old(self).wf(),
        ensures
            final(self).wf(),
            match r {
                Ok(code) => code == 0 && exists|k: int|
                    old(self)@.is_claimed_at(index as int, k) && final(self)@ == old(
                        self,
                    )@.settled(k, RecordState::Padding),
                Err(e) => e.code == -1 && old(self)@.none_claimed_at(index as int) && final(self)@
                    == old(self)@,
            },
    {
        self.settle(index, RecordState::Padding)
    }

    /// Writes a whole message: claims the space, fills it with `msg`, and
    /// commits.
    pub fn write(&mut self, msg_type_id: i32, msg: &[u8]) -> (r: aeron_rb_write_result_stct)
        requires
            old(self).wf(),
        ensures
            final(self).wf(),
            r.spec_code() == (if old(self)@.claim_result(msg_type_id, msg@.len() as int) < 0 {
                old(self)@.claim_result(msg_type_id, msg@.len() as int)
            } else {
                0
            }),
            r != aeron_rb_write_result_stct::AERON_RB_SUCCESS ==> final(self)@ == old(self)@,
            r == aeron_rb_write_result_stct::AERON_RB_SUCCESS ==> {
                let claimed = old(self)@.claimed(msg_type_id, msg@.len() as int);
                let k = claimed.records.len() - 1;
                let at = body_index(claimed.records[k]);
                &&& final(self)@.records == claimed.settled(k, RecordState::Committed).records
                &&& final(self)@.used == claimed.used
                &&& final(self)@.bytes.subrange(at, at + msg@.len()) == msg@
            },
    {
        let ghost before = self@;
        let index = self.try_claim(msg_type_id, msg.len());
        if index == -1 {
            return aeron_rb_write_result_stct::AERON_RB_FULL;
        }
        if index < 0 {
            return aeron_rb_write_result_stct::AERON_RB_ERROR;
        }
        let ghost claimed = self@;
        let k = self.records.len() - 1;
        let r = self.records[k];
        let at = r.index + 8;
        let mut i: usize = 0;
        while i < msg.len()
            invariant
                i <= msg@.len(),
                at + msg@.len() <= self.capacity,
                self.wf(),
                self@ == (RingView { bytes: self@.bytes, ..claimed }),
                self@.bytes.subrange(at as int, at + i) == msg@.subrange(0, i as int),
            decreases msg.len() - i,
        {
            let ghost bytes = self@.bytes;
            self.buffer.set(at + i, msg[i]);
            assert(self@.bytes.subrange(at as int, at + i + 1) =~= bytes.subrange(
                at as int,
                at + i,
            ).push(msg@[i as int]));
            assert(msg@.subrange(0, i + 1) =~= msg@.subrange(0, i as int).push(msg@[i as int]));
            i += 1;
        }
        assert(msg@.subrange(0, msg@.len() as int) =~= msg@);
        let committed = Record {
            index: r.index,
            length: r.length,
            msg_type_id: r.msg_type_id,
            state: RecordState::Committed,
        };
        let _ = self.records.remove(k);
        self.records.insert(k, committed);
        assert(self@.records =~= claimed.records.update(k as int, committed));
        proof {
            lemma_total_update(claimed.records, k as int, committed);
            let now = self@.records;
            assert forall|i: int| 0 <= i < now.len() implies record_fits(
                #[trigger] now[i],
                self@.capacity,
            ) by {
                assert(record_fits(claimed.records[i], claimed.capacity));
            }
            assert forall|i: int| 0 <= i < now.len() - 1 implies (#[trigger] now[i + 1]).index
                == next_index(now[i], self@.capacity) by {
                assert(claimed.records[i + 1].index == next_index(
                    claimed.records[i],
                    claimed.capacity,
                ));
            }
        }
        aeron_rb_write_result_stct::AERON_RB_SUCCESS
    }

    /// Takes the oldest record from the buffer.
    fn pop(&mut self) -> (r: Record)
        requires
            old(self).wf(),
            old(self)@.records.len() > 0,
        ensures
            final(self).wf(),
            r == old(self)@.records[0],
            final(self)@ == old(self)@.popped(),
    {
        let ghost before = self@;
        let r = match self.records.pop_front() {
            Some(r) => r,
            None => Record { index: 0, length: 8, msg_type_id: 0, state: RecordState::Padding },
        };
        assert(self@.records =~= before.records.skip(1));
        assert(before.records[0] == r);
        assert(record_fits(before.records[0], before.capacity));
        let size = align(r.length);
        proof {
            lemma_total_skip(before.records);
            lemma_total_skip(before.records.skip(1));
        }
        self.head_index = if r.index + size == self.capacity {
            0
        } else {
            r.index + size
        };
        self.used = self.used - size;
        proof {
            let now = self@.records;
            assert forall|i: int| 0 <= i < now.len() implies record_fits(
                #[trigger] now[i],
                self@.capacity,
            ) by {
                assert(now[i] == before.records[i + 1]);
            }
            assert forall|i: int| 0 <= i < now.len() - 1 implies (#[trigger] now[i + 1]).index
                == next_index(now[i], self@.capacity) by {
                assert(now[i] == before.records[i + 1]);
                assert(now[i + 1] == before.records[i + 2]);
            }
            if now.len() > 0 {
                assert(now[0] == before.records[1]);
                assert(before.records[1].index == next_index(
                    before.records[0],
                    before.capacity,
                ));
                assert(now.last() == before.records.last());
            }
        }
        r
    }

    /// Reads at most `limit` messages, the oldest first, and hands each to
    /// `handler` with its type. The read stops before a record that is still
    /// claimed. What is read leaves the buffer, and the padding before it too.
    pub fn read_msgs<H: AeronRingBufferHandlerCallback>(
        &mut self,
        handler: &mut H,
        limit: usize,
    ) -> (r: usize)
        requires
            old(self).wf(),
        ensures
            final(self).wf(),
            r == RingView::messages(old(self)@.records, limit as int),
            r <= limit,
            final(self)@ == old(self)@.without_oldest(
                RingView::taken(old(self)@.records, limit as int),
            ),
    {
        let ghost before = self@;
        let mut count: usize = 0;
        let ghost mut gone: int = 0;
        loop
            invariant
                self.wf(),
                count <= limit,
                0 <= gone,
                self@ == before.without_oldest(gone),
                RingView::messages(before.records, limit as int) == count + RingView::messages(
                    self@.records,
                    limit - count,
                ),
                RingView::taken(before.records, limit as int) == gone + RingView::taken(
                    self@.records,
                    limit - count,
                ),
            ensures
                RingView::messages(self@.records, limit - count) == 0,
                RingView::taken(self@.records, limit - count) == 0,
            decreases self@.records.len(),
        {
            if count >= limit || self.records.len() == 0 {
                break ;
            }
            let front = self.records[0];
            let is_claimed = match front.state {
                RecordState::Claimed => true,
                _ => false,
            };
            if is_claimed {
                break ;
            }
            let r = self.pop();
            proof {
                gone = gone + 1;
            }
            let is_message = match r.state {
                RecordState::Committed => true,
                _ => false,
            };
            if is_message {
                let body = slice_subrange(self.buffer.as_slice(), r.index + 8, r.index + r.length);
                handler.handle_aeron_rb_handler(r.msg_type_id, body);
                count += 1;
            }
        }
        count
    }

    /// Reads as `read_msgs` does, where there is a handler; without one,
    /// nothing is read.
    pub fn read<H: AeronRingBufferHandlerCallback>(
        &mut self,
        handler: Option<&mut H>,
        limit: usize,
    ) -> (r: usize)
        requires
            old(self).wf(),
        ensures
            final(self).wf(),
            r <= limit,
            handler is None ==> r == 0 && final(self)@ == old(self)@,
            handler is Some ==> r == RingView::messages(old(self)@.records, limit as int)
                && final(self)@ == old(self)@.without_oldest(
                RingView::taken(old(self)@.records, limit as int),
            ),
    {
        match handler {
            Some(h) => self.read_msgs(h, limit),
            None => 0,
        }
    }

    /// Reads at most `limit` messages, the oldest first, and lets `handler`
    /// say of each whether it is taken and whether the read goes on. The
    /// read stops before a record that is still claimed. What comes back is
    /// the number of messages taken; they leave the buffer, and the padding
    /// before them too.
    pub fn controlled_read_msgs<H: AeronRingBufferControlledHandlerCallback>(
        &mut self,
        handler: &mut H,
        limit: usize,
    ) -> (r: usize)
        requires
            old(self).wf(),
        ensures
            final(self).wf(),
            r <= limit,
            exists|gone: int| r <= gone && final(self)@ == old(self)@.without_oldest(gone),
    {
        let ghost before = self@;
        let mut count: usize = 0;
        let ghost mut gone: int = 0;
        loop
            invariant
                self.wf(),
                count <= limit,
                count <= gone,
                self@ == before.without_oldest(gone),
            decreases self@.records.len(),
        {
            if count >= limit || self.records.len() == 0 {
                break ;
            }
            let front = self.records[0];
            match front.state {
                RecordState::Claimed => {
                    break ;
                },
                RecordState::Padding => {
                    let _ = self.pop();
                    proof {
                        gone = gone + 1;
                    }
                },
                RecordState::Committed => {
                    assert(record_fits(self@.records[0], self@.capacity));
                    let body = slice_subrange(
                        self.buffer.as_slice(),
                        front.index + 8,
                        front.index + front.length,
                    );
                    let action = handler.handle_aeron_controlled_rb_handler(front.msg_type_id, body);
                    match action {
                        aeron_rb_read_action_stct::AERON_RB_ABORT => {
                            break ;
                        },
                        aeron_rb_read_action_stct::AERON_RB_BREAK => {
                            let _ = self.pop();
                            proof {
                                gone = gone + 1;
                            }
                            count += 1;
                            break ;
                        },
                        _ => {
                            let _ = self.pop();
                            proof {
                                gone = gone + 1;
                            }
                            count += 1;
                        },
                    }
                },
            }
        }
        count
    }
}

} // verus!
