//! The durable, ordered, append-only byte sink of one collection.
//!
//! Records are newline-delimited: each appended record is followed by exactly
//! one newline byte, and a record itself never holds one. The log grows only
//! at the end; the bytes once written are never changed, which is what lets
//! an external tailer observe records in the exact order they were appended.

use vstd::prelude::*;

verus! {

/// A record holds no newline: the newline is the frame delimiter.
pub open spec fn is_record_bytes(s: Seq<u8>) -> bool {
    forall|i: int| 0 <= i < s.len() ==> s[i] != 10u8
}

/// The byte contents of a log holding `records`: each record in order,
/// followed by one newline byte.
pub open spec fn encoded(records: Seq<Seq<u8>>) -> Seq<u8>
    decreases records.len(),
{
    if records.len() == 0 {
        Seq::<u8>::empty()
    } else {
        encoded(records.drop_last()) + records.last() + seq![10u8]
    }
}

/// The in-memory image of one collection's log file. The writer at the edge
/// mirrors every framed extension to disk, so `bytes()` is, record for
/// record, what the external tailer reads.
pub struct EventLog {
    buf: Vec<u8>,
    records: Ghost<Seq<Seq<u8>>>,
}

impl EventLog {
    /// The records appended so far, in append order.
    pub closed spec fn records(self) -> Seq<Seq<u8>> {
        self.records@
    }

    /// The bytes of the log file.
    pub closed spec fn bytes(self) -> Seq<u8> {
        self.buf@
    }

    pub open spec fn wf(self) -> bool {
        &&& self.bytes() == encoded(self.records())
        &&& forall|i: int|
            0 <= i < self.records().len() ==> is_record_bytes(#[trigger] self.records()[i])
    }

    /// A fresh, empty log.
    pub fn new() -> (log: Self)
        ensures
            log.wf(),
            log.records() == Seq::<Seq<u8>>::empty(),
    {
        let log = EventLog { buf: Vec::new(), records: Ghost(Seq::empty()) };
        proof {
            assert(log.bytes() =~= encoded(log.records()));
        }
        log
    }

    /// Truncates the log. Used only at (re)initialization, never while a
    /// writer is active: everything previously appended is gone.
    pub fn reset(&mut self)
        ensures
            final(self).wf(),
            final(self).records() == Seq::<Seq<u8>>::empty(),
    {
        self.buf.clear();
        self.records = Ghost(Seq::empty());
        proof {
            assert(self.bytes() =~= encoded(self.records()));
        }
    }

    /// Appends one record and its newline frame as one atomic extension, and
    /// returns the framed bytes for the writer at the edge to mirror. The
    /// bytes already in the log stay untouched: the old contents are a prefix
    /// of the new.
    pub fn append(&mut self, record: &Vec<u8>) -> (frame: Vec<u8>)
        requires
            old(self).wf(),
            is_record_bytes(record@),
        ensures
            final(self).wf(),
            final(self).records() == old(self).records().push(record@),
            old(self).bytes().is_prefix_of(final(self).bytes()),
            final(self).bytes() == old(self).bytes() + record@ + seq![10u8],
            frame@ == record@ + seq![10u8],
    {
        let ghost old_buf = self.buf@;
        let mut frame: Vec<u8> = Vec::new();
        let mut i: usize = 0;
        while i < record.len()
            invariant
                i <= record.len(),
                frame@ == record@.take(i as int),
            decreases record.len() - i,
        {
            frame.push(record[i]);
            proof {
                assert(frame@ =~= record@.take(i + 1));
            }
            i += 1;
        }
        frame.push(10u8);
        proof {
            assert(record@.take(record@.len() as int) =~= record@);
            assert(frame@ =~= record@ + seq![10u8]);
        }
        let mut j: usize = 0;
        while j < frame.len()
            invariant
                j <= frame.len(),
                self.buf@ == old_buf + frame@.take(j as int),
                self.records@ == old(self).records@,
                frame@ == record@ + seq![10u8],
            decreases frame.len() - j,
        {
            self.buf.push(frame[j]);
            proof {
                assert(self.buf@ =~= old_buf + frame@.take(j + 1));
            }
            j += 1;
        }
        self.records = Ghost(self.records@.push(record@));
        proof {
            assert(frame@.take(frame@.len() as int) =~= frame@);
            assert(self.records().drop_last() =~= old(self).records());
            assert(self.bytes() =~= encoded(self.records().drop_last()) + self.records().last()
                + seq![10u8]);
            assert(self.bytes() == encoded(self.records()));
            assert(self.bytes().take(old(self).bytes().len() as int) =~= old(self).bytes());
        }
        frame
    }

    /// The whole log as bytes, for a reader at the edge.
    pub fn as_bytes(&self) -> (r: &Vec<u8>)
        ensures
            r@ == self.bytes(),
    {
        &self.buf
    }
}

/// How many newline delimiters `s` holds.
pub open spec fn line_count(s: Seq<u8>) -> nat
    decreases s.len(),
{
    if s.len() == 0 {
        0
    } else {
        line_count(s.drop_last()) + (if s.last() == 10u8 {
            1nat
        } else {
            0nat
        })
    }
}

proof fn lemma_line_count_add(a: Seq<u8>, b: Seq<u8>)
    ensures
        line_count(a + b) == line_count(a) + line_count(b),
    decreases b.len(),
{
    if b.len() == 0 {
        assert(a + b =~= a);
    } else {
        lemma_line_count_add(a, b.drop_last());
        assert((a + b).drop_last() =~= a + b.drop_last());
        assert((a + b).last() == b.last());
    }
}

proof fn lemma_record_has_no_line(r: Seq<u8>)
    requires
        is_record_bytes(r),
    ensures
        line_count(r) == 0,
    decreases r.len(),
{
    if r.len() > 0 {
        assert(r.last() == r[r.len() - 1]);
        assert forall|i: int| 0 <= i < r.len() - 1 implies r.drop_last()[i] == r[i] by {}
        lemma_record_has_no_line(r.drop_last());
    }
}

/// One line per record: a tailer that splits the log at newlines sees
/// exactly as many lines as records were appended, in the same order the
/// frames were written.
pub proof fn lemma_one_line_per_record(records: Seq<Seq<u8>>)
    requires
        forall|i: int| 0 <= i < records.len() ==> is_record_bytes(#[trigger] records[i]),
    ensures
        line_count(encoded(records)) == records.len(),
    decreases records.len(),
{
    if records.len() > 0 {
        assert(records.last() == records[records.len() - 1]);
        assert forall|i: int| 0 <= i < records.len() - 1 implies records.drop_last()[i]
            == records[i] by {}
        lemma_one_line_per_record(records.drop_last());
        let head = encoded(records.drop_last());
        lemma_line_count_add(head, records.last());
        lemma_line_count_add(head + records.last(), seq![10u8]);
        lemma_record_has_no_line(records.last());
        assert(line_count(seq![10u8]) == 1) by {
            reveal_with_fuel(line_count, 2);
            assert(seq![10u8].last() == 10u8);
            assert(seq![10u8].drop_last() =~= Seq::<u8>::empty());
        }
    }
}

} // verus!
