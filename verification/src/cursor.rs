//! The mathematical model of a decoding cursor, and what holds of it.
use crate::error::DecodeError;
use vstd::prelude::*;

verus! {

/// A byte sequence together with the offset of the next unread byte.
pub struct Cursor {
    pub buffer: Seq<u8>,
    pub position: nat,
}

impl Cursor {
    /// The cursor before the first byte of `buffer`.
    pub open spec fn start(buffer: Seq<u8>) -> Cursor {
        Cursor { buffer, position: 0 }
    }

    /// The offset is inside the buffer or just past its last byte, and the
    /// buffer is one that fits in memory.
    pub open spec fn wf(self) -> bool {
        self.position <= self.buffer.len() <= usize::MAX
    }

    /// The bytes that have not been read yet.
    pub open spec fn remaining(self) -> Seq<u8> {
        self.buffer.skip(self.position as int)
    }

    /// Why `n` bytes cannot be read here, or `None` if they can.
    pub open spec fn take_error(self, n: nat) -> Option<DecodeError> {
        if self.position + n > usize::MAX {
            Some(DecodeError::AddOverflow)
        } else if self.position + n > self.buffer.len() {
            Some(DecodeError::EndOfBuffer { index: (self.position + n) as usize })
        } else {
            None
        }
    }

    /// The next `n` bytes.
    pub open spec fn taken(self, n: nat) -> Seq<u8> {
        self.buffer.subrange(self.position as int, self.position + n as int)
    }

    /// The cursor `n` bytes further on.
    pub open spec fn advance(self, n: nat) -> Cursor {
        Cursor { buffer: self.buffer, position: self.position + n }
    }

    /// `self` can be what reads leave of `before`: a cursor over the same
    /// buffer, inside it, and not before `before`.
    pub open spec fn continues(self, before: Cursor) -> bool {
        &&& self.buffer == before.buffer
        &&& before.position <= self.position
        &&& self.wf()
    }

    /// The cursor after reads of `widths[0]`, `widths[1]`, ... bytes, one
    /// after the other, or `None` if one of them fails.
    pub open spec fn advance_all(self, widths: Seq<nat>) -> Option<Cursor>
        decreases widths.len(),
    {
        if widths.len() == 0 {
            Some(self)
        } else if self.take_error(widths[0]) is Some {
            None
        } else {
            self.advance(widths[0]).advance_all(widths.drop_first())
        }
    }
}

/// The sum of `widths`.
pub open spec fn total(widths: Seq<nat>) -> nat
    decreases widths.len(),
{
    if widths.len() == 0 {
        0
    } else {
        widths[0] + total(widths.drop_first())
    }
}

/// A read of `n` bytes that succeeds yields `n` bytes and moves the cursor
/// forward by exactly `n`, over the same buffer and never past its end.
pub proof fn lemma_read_advances(cursor: Cursor, n: nat)
    requires
        cursor.wf(),
        cursor.take_error(n) is None,
    ensures
        cursor.taken(n).len() == n,
        cursor.advance(n).position == cursor.position + n,
        cursor.advance(n).continues(cursor),
{
}

/// After a run of reads that all succeed, the position is the position before
/// the run plus the widths of the reads: it never decreases and skips nothing.
pub proof fn lemma_reads_add_up(cursor: Cursor, widths: Seq<nat>)
    requires
        cursor.wf(),
        cursor.advance_all(widths) is Some,
    ensures
        cursor.advance_all(widths).unwrap().position == cursor.position + total(widths),
        cursor.advance_all(widths).unwrap().continues(cursor),
    decreases widths.len(),
{
    if widths.len() > 0 {
        lemma_reads_add_up(cursor.advance(widths[0]), widths.drop_first());
    }
}

/// A read of `n` bytes that succeeds yields the first `n` of the remaining
/// bytes, and the bytes that remain after it are the others: `n` fewer.
pub proof fn lemma_read_consumes(cursor: Cursor, n: nat)
    requires
        cursor.wf(),
        cursor.take_error(n) is None,
    ensures
        cursor.taken(n) == cursor.remaining().take(n as int),
        cursor.advance(n).remaining() == cursor.remaining().skip(n as int),
        cursor.advance(n).remaining().len() == cursor.remaining().len() - n,
{
}

/// A read of more bytes than remain fails with `EndOfBuffer`, which names the
/// offset at which the read would have ended, unless that offset does not
/// fit in `usize`.
pub proof fn lemma_read_past_end(cursor: Cursor, n: nat)
    requires
        cursor.wf(),
        n > cursor.remaining().len(),
        cursor.position + n <= usize::MAX,
    ensures
        cursor.take_error(n) == Some(
            DecodeError::EndOfBuffer { index: (cursor.position + n) as usize },
        ),
{
}

/// A read whose end offset does not fit in `usize` fails with `AddOverflow`.
pub proof fn lemma_read_overflow(cursor: Cursor, n: nat)
    requires
        cursor.position + n > usize::MAX,
    ensures
        cursor.take_error(n) == Some(DecodeError::AddOverflow),
{
}

/// A read fails if and only if it asks for more bytes than remain.
pub proof fn lemma_read_fails_iff(cursor: Cursor, n: nat)
    requires
        cursor.wf(),
    ensures
        cursor.take_error(n) is Some <==> n > cursor.remaining().len(),
{
}

} // verus!
