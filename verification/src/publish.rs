//! Release/acquire publication of a payload behind a ready flag.

use vstd::prelude::*;

verus! {

/// A payload word guarded by a ready flag.
///
/// The writer stores the payload and then sets the flag with release
/// ordering; a reader loads the flag with acquire ordering and only then
/// reads the payload.  The release store and the acquire load that observes
/// it form a happens-before edge, so every write the writer made before its
/// release store — in particular the payload — is visible to the reader.
/// The type states that guarantee as an invariant: whenever the flag is
/// observed true, the payload is exactly the published value, never a stale
/// or partial one.
pub struct PublishCell {
    data: u64,
    ready: bool,
    published: Ghost<u64>,
}

impl PublishCell {
    /// The payload word.
    pub closed spec fn spec_data(&self) -> u64 {
        self.data
    }

    /// The ready flag.
    pub closed spec fn spec_ready(&self) -> bool {
        self.ready
    }

    /// The value the writer published, once it has.
    pub closed spec fn spec_published(&self) -> u64 {
        self.published@
    }

    /// The happens-before guarantee: a true flag is only ever observed
    /// together with the published payload.
    pub open spec fn wf(&self) -> bool {
        self.spec_ready() ==> self.spec_data() == self.spec_published()
    }

    /// A cell whose flag is still down.
    pub fn new() -> (r: PublishCell)
        ensures
            r.wf(),
            !r.spec_ready(),
            r.spec_data() == 0,
    {
        PublishCell { data: 0, ready: false, published: Ghost(0) }
    }

    /// The writer's side: store the payload, then raise the flag with
    /// release ordering.  Everything written before the release store is
    /// visible to any reader that observes the flag true.
    pub fn publish(&mut self, payload: u64)
        ensures
            final(self).wf(),
            final(self).spec_ready(),
            final(self).spec_data() == payload,
            final(self).spec_published() == payload,
    {
        self.data = payload;
        self.published = Ghost(payload);
        self.ready = true;
    }

    /// The reader's side: an acquire load of the flag, and the payload only
    /// if the flag was up.  Observing `Some` means the happens-before edge
    /// exists, so the payload is the published one.
    pub fn try_receive(&self) -> (r: Option<u64>)
        requires
            self.wf(),
        ensures
            r is Some <==> self.spec_ready(),
            self.spec_ready() ==> r == Some(self.spec_published()),
    {
        if self.ready {
            Some(self.data)
        } else {
            None
        }
    }

    /// The reader's side once the flag has been observed true: the payload
    /// read afterwards is exactly the published value.
    pub fn receive(&self) -> (r: u64)
        requires
            self.wf(),
            self.spec_ready(),
        ensures
            r == self.spec_published(),
    {
        self.data
    }
}

/// The scenario from the ordering chapter, for any payload: a writer
/// publishes and a reader spins until the flag is up; whatever the schedule,
/// once the reader observes the flag it reads the published payload, never a
/// default or partial value.
pub proof fn lemma_acquired_read_sees_published(cell: PublishCell, payload: u64)
    requires
        cell.wf(),
        cell.spec_ready(),
        cell.spec_published() == payload,
    ensures
        cell.spec_data() == payload,
{
}

} // verus!
