//! Records on their way to a client: those that wait in line, and the latest
//! ones that replace each other.

use vstd::prelude::*;

verus! {

/// A record of which some bytes may have reached the wire.
#[derive(Debug)]
pub struct PendingWrite {
    pub bytes: Vec<u8>,
    pub written: usize,
}

/// What a record holds, and how much of it has reached the wire.
#[verifier::ext_equal]
pub struct WriteModel {
    pub bytes: Seq<u8>,
    pub written: int,
}

impl View for PendingWrite {
    type V = WriteModel;

    open spec fn view(&self) -> WriteModel {
        WriteModel { bytes: self.bytes@, written: self.written as int }
    }
}

impl WriteModel {
    /// Whether no more was written than there is.
    pub open spec fn wf(self) -> bool {
        0 <= self.written <= self.bytes.len()
    }

    /// Whether a byte has reached the wire.
    pub open spec fn started(self) -> bool {
        self.written > 0
    }

    /// Whether every byte has reached the wire.
    pub open spec fn complete(self) -> bool {
        self.written == self.bytes.len()
    }

    /// What has not reached the wire.
    pub open spec fn rest(self) -> Seq<u8> {
        self.bytes.subrange(self.written, self.bytes.len() as int)
    }

    /// The record once some more bytes have reached the wire.
    pub open spec fn advanced(self, count: int) -> Self {
        WriteModel { written: self.written + count, ..self }
    }
}

/// A record none of which has reached the wire.
pub open spec fn unstarted(bytes: Seq<u8>) -> WriteModel {
    WriteModel { bytes, written: 0 }
}

impl PendingWrite {
    /// A record none of which has reached the wire.
    pub fn new(bytes: Vec<u8>) -> (write: Self)
        ensures
            write@ == unstarted(bytes@),
            write@.wf(),
    {
        PendingWrite { bytes, written: 0 }
    }

    /// Returns whether a byte has reached the wire.
    pub fn started(&self) -> (started: bool)
        ensures
            started == self@.started(),
    {
        self.written > 0
    }

    /// Returns what has not reached the wire.
    pub fn rest(&self) -> (rest: &[u8])
        requires
            self@.wf(),
        ensures
            rest@ == self@.rest(),
    {
        vstd::slice::slice_subrange(self.bytes.as_slice(), self.written, self.bytes.len())
    }

    /// Notes that some more bytes have reached the wire, and returns whether
    /// all have.
    pub fn advance(&mut self, count: usize) -> (complete: bool)
        requires
            old(self)@.wf(),
            count <= old(self)@.rest().len(),
        ensures
            final(self)@.wf(),
            final(self)@ == old(self)@.advanced(count as int),
            complete == final(self)@.complete(),
    {
        let length: usize = self.bytes.len();
        self.written = self.written + count;
        self.written == length
    }
}

/// What writing to the wire once came to.
#[derive(Clone, Copy, Debug, PartialEq, Eq, Structural)]
pub enum WriteEvent {
    /// Some bytes were taken.
    Wrote(usize),
    /// The wire takes nothing now.
    Blocked,
    /// The wire is gone.
    Failed,
}

/// What writing a record came to.
#[derive(Clone, Copy, Debug, PartialEq, Eq, Structural)]
pub enum WriteOutcome {
    Pending,
    HandshakeResponseWritten,
    Failed,
}

/// A place for the latest record of a kind. A record that has started to go
/// out goes out whole; the one behind it is replaced by whatever is newer.
#[derive(Debug)]
pub struct LatestRecord {
    pub current: Option<PendingWrite>,
    pub next: Option<Vec<u8>>,
}

/// What the place holds.
#[verifier::ext_equal]
pub struct LatestModel {
    pub current: Option<WriteModel>,
    pub next: Option<Seq<u8>>,
}

impl View for LatestRecord {
    type V = LatestModel;

    open spec fn view(&self) -> LatestModel {
        LatestModel {
            current: match self.current {
                None => None,
                Some(write) => Some(write@),
            },
            next: match self.next {
                None => None,
                Some(bytes) => Some(bytes@),
            },
        }
    }
}

impl LatestModel {
    /// A place with nothing in it.
    pub open spec fn vacant() -> Self {
        LatestModel { current: None, next: None }
    }

    /// Whether the record that goes out is in order, and nothing stands behind
    /// one that has not started.
    pub open spec fn wf(self) -> bool {
        &&& self.current matches Some(write) ==> write.wf() && !write.complete()
        &&& self.next is Some ==> self.started()
        &&& self.next matches Some(bytes) ==> bytes.len() > 0
    }

    /// Whether there is no record.
    pub open spec fn is_vacant(self) -> bool {
        self.current is None
    }

    /// Whether a record has started to go out.
    pub open spec fn started(self) -> bool {
        self.current matches Some(write) && write.started()
    }

    /// The place once a newer record came; a record of no bytes is none.
    pub open spec fn replaced(self, bytes: Seq<u8>) -> Self {
        if bytes.len() == 0 {
            self
        } else if self.started() {
            LatestModel { next: Some(bytes), ..self }
        } else {
            LatestModel { current: Some(unstarted(bytes)), next: None }
        }
    }

    /// The place without what has not started to go out.
    pub open spec fn only_started(self) -> Self {
        if self.started() {
            LatestModel { next: None, ..self }
        } else {
            Self::vacant()
        }
    }

    /// The place once some more bytes have reached the wire.
    pub open spec fn advanced(self, count: int) -> Self {
        match self.current {
            None => self,
            Some(write) => if write.advanced(count).complete() {
                LatestModel {
                    current: match self.next {
                        None => None,
                        Some(bytes) => Some(unstarted(bytes)),
                    },
                    next: None,
                }
            } else {
                LatestModel { current: Some(write.advanced(count)), ..self }
            },
        }
    }

    /// How many bytes of the record that goes out are left.
    pub open spec fn left(self) -> nat {
        match self.current {
            None => 0,
            Some(write) => write.rest().len(),
        }
    }
}

impl LatestRecord {
    /// A place with nothing in it.
    pub fn new() -> (record: Self)
        ensures
            record@ == LatestModel::vacant(),
            record@.wf(),
    {
        LatestRecord { current: None, next: None }
    }

    /// Returns whether there is no record.
    pub fn is_empty(&self) -> (empty: bool)
        ensures
            empty == self@.is_vacant(),
    {
        self.current.is_none()
    }

    /// Returns whether a record has started to go out.
    pub fn started(&self) -> (started: bool)
        ensures
            started == self@.started(),
    {
        match &self.current {
            None => false,
            Some(write) => write.started(),
        }
    }

    /// Puts a newer record in place.
    pub fn replace(&mut self, bytes: Vec<u8>)
        requires
            old(self)@.wf(),
        ensures
            final(self)@.wf(),
            final(self)@ == old(self)@.replaced(bytes@),
    {
        if bytes.len() == 0 {
            return;
        }
        if self.started() {
            self.next = Some(bytes);
        } else {
            self.current = Some(PendingWrite::new(bytes));
            self.next = None;
        }
    }

    /// Drops what has not started to go out.
    pub fn discard_unstarted(&mut self)
        requires
            old(self)@.wf(),
        ensures
            final(self)@.wf(),
            final(self)@ == old(self)@.only_started(),
    {
        if !self.started() {
            self.current = None;
        }
        self.next = None;
    }

    /// Returns the bytes to write next, if there are any.
    pub fn rest(&self) -> (rest: Option<&[u8]>)
        requires
            self@.wf(),
        ensures
            match self@.current {
                None => rest is None,
                Some(write) => rest matches Some(bytes) && bytes@ == write.rest(),
            },
    {
        match &self.current {
            None => None,
            Some(write) => Some(write.rest()),
        }
    }

    /// Notes that some more bytes have reached the wire.
    pub fn advance(&mut self, count: usize)
        requires
            old(self)@.wf(),
            count <= old(self)@.left(),
        ensures
            final(self)@.wf(),
            final(self)@ == old(self)@.advanced(count as int),
    {
        let mut write = match self.current.take() {
            None => {
                return;
            },
            Some(write) => write,
        };
        if write.advance(count) {
            match self.next.take() {
                None => {},
                Some(bytes) => {
                    self.current = Some(PendingWrite::new(bytes));
                },
            }
        } else {
            self.current = Some(write);
        }
    }
}

/// Returns a copy of some bytes.
pub fn copied(bytes: &[u8]) -> (copy: Vec<u8>)
    ensures
        copy@ == bytes@,
{
    let mut copy: Vec<u8> = Vec::new();
    let mut index: usize = 0;
    while index < bytes.len()
        invariant
            index <= bytes.len(),
            copy@ == bytes@.subrange(0, index as int),
        decreases bytes.len() - index,
    {
        copy.push(bytes[index]);
        proof {
            assert(copy@ =~= bytes@.subrange(0, index + 1));
        }
        index = index + 1;
    }
    proof {
        assert(copy@ =~= bytes@);
    }
    copy
}

/// Of two records that come before one goes out, only the later goes out.
pub proof fn only_the_latest_record_counts(
    place: LatestModel,
    earlier: Seq<u8>,
    later: Seq<u8>,
)
    requires
        place.wf(),
        later.len() > 0,
    ensures
        place.replaced(earlier).replaced(later) == place.replaced(later),
        place.started() ==> place.replaced(later).current == place.current,
{
}

/// A record that has started to go out goes out to its last byte: neither a
/// newer one nor a shutdown touches it.
pub proof fn started_records_go_out_whole(place: LatestModel, bytes: Seq<u8>)
    requires
        place.wf(),
        place.started(),
    ensures
        place.replaced(bytes).current == place.current,
        place.only_started().current == place.current,
        place.only_started().next is None,
{
}

} // verus!
