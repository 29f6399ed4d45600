//! The whole pipeline as one state: the page counter and the barrier, kept
//! in step.
//!
//! The caller does the work that takes time: it runs the extractor for the
//! page that [`Pipeline::next_page`] names and hands the answer to
//! [`Pipeline::page_answered`]; it starts a translation for every page that
//! comes back and hands its outcome to [`Pipeline::translated`], whenever
//! it ends. Dispatch order, page order and the order of the final text are
//! then one and the same.

use vstd::prelude::*;
use crate::discovery::{found, Discovery, Extraction, Page, Probe};
use crate::join::{all_settled, all_waiting, joined, outcomes_of, settle, Barrier, Outcome};

verus! {

/// One run of the pipeline over one document.
pub struct Pipeline {
    discovery: Discovery,
    barrier: Barrier,
}

impl Pipeline {
    /// Where the discovery of pages stands.
    pub closed spec fn probe(&self) -> Probe {
        self.discovery@
    }

    /// The slots of the dispatched pages, in dispatch order.
    pub closed spec fn slots(&self) -> Seq<Option<Outcome>> {
        self.barrier@
    }

    /// There is one slot for every page found: while the document is
    /// open, the page to probe next is the one after the last slot.
    pub closed spec fn wf(&self) -> bool {
        &&& self.barrier.wf()
        &&& self.discovery@.open ==> self.discovery@.next == self.barrier@.len() + 1
    }

    /// A pipeline that has probed nothing yet.
    pub fn new() -> (pipeline: Pipeline)
        ensures
            pipeline.wf(),
            pipeline.probe() == Probe::start(),
            pipeline.slots() == Seq::<Option<Outcome>>::empty(),
    {
        Pipeline { discovery: Discovery::new(), barrier: Barrier::new() }
    }

    /// The page to probe next, or `None` once the end of the document was
    /// found.
    pub fn next_page(&self) -> (page: Option<u64>)
        ensures
            page == if self.probe().open {
                Some(self.probe().next)
            } else {
                None::<u64>
            },
    {
        self.discovery.next_page()
    }

    /// Takes the extractor's answer for the page that was probed. Where it
    /// holds a page, the page comes back with its position, and a slot
    /// waits for its translation: the page's number is its position plus
    /// one. Where it holds none, the document has ended.
    pub fn page_answered(&mut self, extraction: Extraction) -> (dispatched: Option<(usize, Page)>)
        requires
            old(self).wf(),
        ensures
            final(self).wf(),
            final(self).probe() == old(self).probe().record(extraction),
            match old(self).probe().page(extraction) {
                Some(page) => {
                    &&& dispatched == Some((old(self).slots().len() as usize, page))
                    &&& page.ordinal == old(self).slots().len() + 1
                    &&& final(self).slots() == old(self).slots().push(None)
                },
                None => dispatched is None && final(self).slots() == old(self).slots(),
            },
    {
        match self.discovery.record(extraction) {
            Some(page) => {
                let position: usize = self.barrier.dispatch();
                Some((position, page))
            },
            None => None,
        }
    }

    /// Takes the outcome of the translation dispatched at `position`, as
    /// [`Barrier::complete`] does.
    pub fn translated(&mut self, position: usize, outcome: Outcome) -> (accepted: bool)
        requires
            old(self).wf(),
        ensures
            final(self).wf(),
            final(self).probe() == old(self).probe(),
            accepted == (position < old(self).slots().len() && old(self).slots()[position as int]
                is None),
            final(self).slots() == settle(old(self).slots(), position as int, outcome),
    {
        self.barrier.complete(position, outcome)
    }

    /// How many pages were dispatched.
    pub fn queued(&self) -> (count: usize)
        ensures
            count == self.slots().len(),
    {
        self.barrier.dispatched()
    }

    /// The final text: the translations in page order, once the end of the
    /// document was found and every translation has ended; `None` before.
    pub fn output(&self) -> (text: Option<String>)
        requires
            self.wf(),
        ensures
            text is Some == (!self.probe().open && all_settled(self.slots())),
            text is Some ==> text->Some_0@ == joined(outcomes_of(self.slots())),
    {
        if self.discovery.next_page().is_some() {
            None
        } else {
            self.barrier.output()
        }
    }
}

/// A document without a first page is translated to nothing: no page is
/// dispatched, no slot waits, and the final text is there and empty.
pub proof fn lemma_empty_document(extractions: Seq<Extraction>)
    requires
        extractions.len() > 0,
        !found(extractions[0]),
    ensures
        Probe::start().pages(extractions) == Seq::<Page>::empty(),
        !Probe::start().run(extractions).open,
        all_settled(all_waiting(Probe::start().pages(extractions).len())),
        joined(outcomes_of(all_waiting(Probe::start().pages(extractions).len())))
            == Seq::<char>::empty(),
{
    crate::discovery::lemma_no_first_page(extractions);
    assert(outcomes_of(all_waiting(0)) =~= Seq::<Outcome>::empty());
}

} // verus!
