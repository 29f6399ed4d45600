//! Finding the pages of a document.
//!
//! Nobody knows beforehand how many pages a document has. The pages are
//! probed in order, from page 1 on, and the first page that cannot be had
//! ends the document: that is no error, it is how the end is found.
//! [`Discovery`] keeps the count: it says which page to probe next, and
//! takes each answer.

use vstd::prelude::*;
use crate::extraction::PdfParsingError;

verus! {

/// What the extractor answered for one page.
pub type Extraction = Result<String, PdfParsingError>;

/// A page that was found: its number, from 1, and its text.
#[derive(Debug, Clone, PartialEq, Eq)]
pub struct Page {
    pub ordinal: u64,
    pub text: String,
}

/// Where a discovery stands: the page to probe next, and whether the end
/// of the document is still to be found.
pub struct Probe {
    pub next: u64,
    pub open: bool,
}

/// Whether an answer holds a page: it must be text, and not empty.
pub open spec fn found(extraction: Extraction) -> bool {
    extraction is Ok && extraction->Ok_0@.len() > 0
}

impl Probe {
    /// Before any page was probed.
    pub open spec fn start() -> Probe {
        Probe { next: 1, open: true }
    }

    /// The page that the answer gives, if it gives one.
    pub open spec fn page(self, extraction: Extraction) -> Option<Page> {
        if self.open && found(extraction) {
            Some(Page { ordinal: self.next, text: extraction->Ok_0 })
        } else {
            None
        }
    }

    /// Where the discovery stands after the answer. A page moves it on by
    /// one; anything else ends it, and so does the last page number there
    /// is.
    pub open spec fn record(self, extraction: Extraction) -> Probe {
        if self.open && found(extraction) && self.next < u64::MAX {
            Probe { next: (self.next + 1) as u64, open: true }
        } else {
            Probe { next: self.next, open: false }
        }
    }

    /// Where the discovery stands after a run of answers.
    pub open spec fn run(self, extractions: Seq<Extraction>) -> Probe
        decreases extractions.len(),
    {
        if extractions.len() == 0 {
            self
        } else {
            self.run(extractions.drop_last()).record(extractions.last())
        }
    }

    /// The pages that a run of answers gives, in the order found.
    pub open spec fn pages(self, extractions: Seq<Extraction>) -> Seq<Page>
        decreases extractions.len(),
    {
        if extractions.len() == 0 {
            Seq::empty()
        } else {
            let earlier = self.pages(extractions.drop_last());
            match self.run(extractions.drop_last()).page(extractions.last()) {
                Some(page) => earlier.push(page),
                None => earlier,
            }
        }
    }
}

/// The page counter of one document.
pub struct Discovery {
    next: u64,
    open: bool,
}

impl View for Discovery {
    type V = Probe;

    closed spec fn view(&self) -> Probe {
        Probe { next: self.next, open: self.open }
    }
}

impl Discovery {
    /// A discovery that starts at page 1.
    pub fn new() -> (discovery: Discovery)
        ensures
            discovery@ == Probe::start(),
    {
        Discovery { next: 1, open: true }
    }

    /// The page to probe next, or `None` once the end was found.
    pub fn next_page(&self) -> (page: Option<u64>)
        ensures
            page == if self@.open {
                Some(self@.next)
            } else {
                None::<u64>
            },
    {
        if self.open {
            Some(self.next)
        } else {
            None
        }
    }

    /// Takes the answer for the page that was probed. Where it holds a
    /// page, that page is handed back, numbered, to be dispatched; where
    /// it does not, the document has ended and every later answer is
    /// dropped.
    pub fn record(&mut self, extraction: Extraction) -> (page: Option<Page>)
        ensures
            final(self)@ == old(self)@.record(extraction),
            page == old(self)@.page(extraction),
    {
        if !self.open {
            return None;
        }
        match extraction {
            Ok(text) => {
                if text.as_str().is_empty() {
                    self.open = false;
                    None
                } else {
                    let ordinal: u64 = self.next;
                    if self.next < u64::MAX {
                        self.next = self.next + 1;
                    } else {
                        self.open = false;
                    }
                    Some(Page { ordinal, text })
                }
            },
            Err(_) => {
                self.open = false;
                None
            },
        }
    }
}

/// Once the end was found, no answer changes anything or gives a page.
pub proof fn lemma_closed_stays_closed(probe: Probe, extractions: Seq<Extraction>)
    requires
        !probe.open,
    ensures
        probe.run(extractions) == probe,
        probe.pages(extractions) == Seq::<Page>::empty(),
    decreases extractions.len(),
{
    if extractions.len() > 0 {
        lemma_closed_stays_closed(probe, extractions.drop_last());
    }
}

/// While every answer holds a page, the pages found are the answers in
/// order, numbered from 1 without a gap, and the next page to probe is the
/// one after them.
pub proof fn lemma_pages_while_found(extractions: Seq<Extraction>)
    requires
        extractions.len() <= u64::MAX,
        forall|i: int| 0 <= i < extractions.len() ==> found(#[trigger] extractions[i]),
    ensures
        Probe::start().pages(extractions).len() == extractions.len(),
        forall|i: int|
            0 <= i < extractions.len() ==> (#[trigger] Probe::start().pages(extractions)[i])
                == (Page { ordinal: (i + 1) as u64, text: extractions[i]->Ok_0 }),
        extractions.len() < u64::MAX ==> Probe::start().run(extractions) == (Probe {
            next: (extractions.len() + 1) as u64,
            open: true,
        }),
        extractions.len() == u64::MAX ==> Probe::start().run(extractions) == (Probe {
            next: u64::MAX,
            open: false,
        }),
    decreases extractions.len(),
{
    if extractions.len() > 0 {
        let earlier = extractions.drop_last();
        lemma_pages_while_found(earlier);
        assert(found(extractions[extractions.len() - 1]));
    }
}

/// A document of `count` pages gives exactly `count` pages to dispatch:
/// where the first `count` answers hold a page and the next one does not,
/// the pages found are those `count`, numbered 1 to `count` in order, each
/// with its own text, whatever is answered afterwards.
pub proof fn lemma_pages_of_document(extractions: Seq<Extraction>, count: int)
    requires
        0 <= count < extractions.len(),
        count <= u64::MAX,
        forall|i: int| 0 <= i < count ==> found(#[trigger] extractions[i]),
        !found(extractions[count]),
    ensures
        Probe::start().pages(extractions).len() == count,
        forall|i: int|
            0 <= i < count ==> (#[trigger] Probe::start().pages(extractions)[i]) == (Page {
                ordinal: (i + 1) as u64,
                text: extractions[i]->Ok_0,
            }),
        !Probe::start().run(extractions).open,
    decreases extractions.len(),
{
    let earlier = extractions.drop_last();
    if extractions.len() == count + 1 {
        lemma_pages_while_found(earlier);
    } else {
        lemma_pages_of_document(earlier, count);
    }
}

/// A document whose first page cannot be had gives no page at all.
pub proof fn lemma_no_first_page(extractions: Seq<Extraction>)
    requires
        extractions.len() > 0,
        !found(extractions[0]),
    ensures
        Probe::start().pages(extractions) == Seq::<Page>::empty(),
        !Probe::start().run(extractions).open,
{
    lemma_pages_of_document(extractions, 0);
    assert(Probe::start().pages(extractions) =~= Seq::<Page>::empty());
}

proof fn lemma_numbering(probe: Probe, extractions: Seq<Extraction>)
    ensures
        forall|i: int|
            0 <= i < probe.pages(extractions).len() ==> (#[trigger] probe.pages(
                extractions,
            )[i]).text@.len() > 0,
        forall|i: int|
            0 <= i < probe.pages(extractions).len() ==> (#[trigger] probe.pages(
                extractions,
            )[i]).ordinal == probe.next + i,
        probe.pages(extractions).len() > 0 ==> probe.open,
        probe.run(extractions).open ==> probe.run(extractions).next == probe.next
            + probe.pages(extractions).len(),
    decreases extractions.len(),
{
    if extractions.len() > 0 {
        let earlier = probe.pages(extractions.drop_last());
        let before = probe.run(extractions.drop_last());
        let pages = probe.pages(extractions);
        lemma_numbering(probe, extractions.drop_last());
        if !probe.open {
            lemma_closed_stays_closed(probe, extractions.drop_last());
        }
        assert forall|i: int| 0 <= i < pages.len() implies (#[trigger] pages[i]).text@.len() > 0
            && pages[i].ordinal == probe.next + i by {
            if i < earlier.len() {
                assert(pages[i] == earlier[i]);
            } else {
                assert(pages[i] == before.page(extractions.last())->Some_0);
            }
        }
    }
}

/// Whatever is answered, every page found has text, and the pages are
/// numbered in the order found, without a gap, from the page that was to
/// be probed first.
pub proof fn lemma_pages_are_numbered(probe: Probe, extractions: Seq<Extraction>)
    ensures
        forall|i: int|
            0 <= i < probe.pages(extractions).len() ==> (#[trigger] probe.pages(
                extractions,
            )[i]).text@.len() > 0,
        forall|i: int|
            0 <= i < probe.pages(extractions).len() ==> (#[trigger] probe.pages(
                extractions,
            )[i]).ordinal == probe.next + i,
{
    lemma_numbering(probe, extractions);
}

} // verus!
