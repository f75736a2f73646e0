//! Walking one paginated stream: which page to ask for next, and what a
//! returned page does to what has been collected.

use vstd::prelude::*;

verus! {

/// The number of records asked for in one page.
pub const PAGE_SIZE: u64 = 100;

/// The list sorting preference.
#[derive(Clone, Copy, Debug, PartialEq, Eq, Structural)]
pub enum Sort {
    Asc,
    Desc,
}

/// The arguments of one page request.
#[derive(Clone, Copy, Debug, PartialEq, Eq, Structural)]
pub struct TxListParams {
    pub start_block: u64,
    pub end_block: u64,
    pub page: u64,
    pub offset: u64,
    pub sort: Sort,
}

/// Why collecting the streams failed.
#[derive(Clone, Debug, PartialEq, Eq)]
pub enum FetchError {
    /// The source failed to answer a page request; the text is its message.
    Source(String),
    /// A stream went on past the last page number that can be asked for.
    PageOverflow,
}

/// The arguments that a request has where nothing else is asked for: every
/// block, ascending.
pub open spec fn default_params() -> TxListParams {
    TxListParams { start_block: 0, end_block: 99999999, page: 0, offset: 10000, sort: Sort::Asc }
}

/// The arguments of the request for page `page` of a stream.
pub open spec fn page_params(page: u64) -> TxListParams {
    TxListParams { page, offset: PAGE_SIZE, ..default_params() }
}

/// Calls `TxListParams::default` of ethers-etherscan and copies the fields
/// over. The contract lists the values that this default has: blocks 0 to
/// 99999999, page 0, 10000 records a page, ascending.
#[verifier::external_body]
fn default_list_params() -> (params: TxListParams)
    ensures
        params == default_params(),
{
    let d = ethers_etherscan::account::TxListParams::default();
    TxListParams {
        start_block: d.start_block,
        end_block: d.end_block,
        page: d.page,
        offset: d.offset,
        sort: match d.sort {
            ethers_etherscan::account::Sort::Asc => Sort::Asc,
            ethers_etherscan::account::Sort::Desc => Sort::Desc,
        },
    }
}

/// Where the walk over one stream stands.
pub struct PagerState<T> {
    /// The number of the page to ask for next; the first page is page 1.
    pub page: nat,
    /// The records of the pages received so far, in arrival order.
    pub items: Seq<T>,
    /// Whether an empty page has ended the stream.
    pub done: bool,
}

/// The state before the first request.
pub open spec fn start<T>() -> PagerState<T> {
    PagerState { page: 1, items: Seq::empty(), done: false }
}

/// The request to make in a state: none once the stream has ended.
pub open spec fn next_request<T>(state: PagerState<T>) -> Option<TxListParams> {
    if state.done {
        None
    } else {
        Some(page_params(state.page as u64))
    }
}

/// Whether a page can be taken in: not when it would move the walk past the
/// last page number.
pub open spec fn fits<T>(state: PagerState<T>, batch: Seq<T>) -> bool {
    state.done || batch.len() == 0 || state.page < u64::MAX
}

/// The state after a page has come in: an empty page ends the stream, any
/// other is appended and the walk moves to the next page. A page that comes
/// in after the end changes nothing.
pub open spec fn after<T>(state: PagerState<T>, batch: Seq<T>) -> PagerState<T> {
    if state.done {
        state
    } else if batch.len() == 0 {
        PagerState { done: true, ..state }
    } else {
        PagerState { page: state.page + 1, items: state.items + batch, done: false }
    }
}

/// How many more pages the walk can take in at most.
pub open spec fn remaining<T>(state: PagerState<T>) -> nat {
    if state.done {
        0
    } else {
        (u64::MAX - state.page + 1) as nat
    }
}

/// The walk over one paginated stream.
pub struct Pager<T> {
    page: u64,
    items: Vec<T>,
    done: bool,
}

impl<T> Pager<T> {
    /// Where the walk stands.
    pub closed spec fn view(&self) -> PagerState<T> {
        PagerState { page: self.page as nat, items: self.items@, done: self.done }
    }

    /// A walk that has not asked for anything yet.
    pub fn new() -> (pager: Pager<T>)
        ensures
            pager@ == start::<T>(),
    {
        Pager { page: 1, items: Vec::new(), done: false }
    }

    /// A walk that goes on from page `page`, with nothing collected yet.
    pub fn starting_at(page: u64) -> (pager: Pager<T>)
        ensures
            pager@ == (PagerState::<T> { page: page as nat, items: Seq::empty(), done: false }),
    {
        Pager { page, items: Vec::new(), done: false }
    }

    /// The arguments of the next page request, or `None` once the stream has
    /// ended.
    pub fn request(&self) -> (params: Option<TxListParams>)
        ensures
            params == next_request(self@),
    {
        if self.done {
            None
        } else {
            let mut params = default_list_params();
            params.page = self.page;
            params.offset = PAGE_SIZE;
            Some(params)
        }
    }

    /// Takes in the page that the last request was answered with.
    pub fn accept(&mut self, batch: Vec<T>) -> (taken: Result<(), FetchError>)
        ensures
            fits(old(self)@, batch@) ==> taken is Ok && final(self)@ == after(
                old(self)@,
                batch@,
            ),
            !fits(old(self)@, batch@) ==> taken == Err::<(), FetchError>(FetchError::PageOverflow)
                && final(self)@ == old(self)@,
            taken is Ok ==> remaining(final(self)@) < remaining(old(self)@) || old(self)@.done,
    {
        if self.done {
            return Ok(());
        }
        if batch.len() == 0 {
            self.done = true;
            return Ok(());
        }
        if self.page == u64::MAX {
            return Err(FetchError::PageOverflow);
        }
        let mut batch = batch;
        self.items.append(&mut batch);
        self.page = self.page + 1;
        Ok(())
    }

    /// Takes in what the source answered the last request with. A failure
    /// is handed on as it is and leaves the walk where it was; a page is
    /// taken in as by [`Pager::accept`].
    pub fn answer(&mut self, answer: Result<Vec<T>, FetchError>) -> (taken: Result<(), FetchError>)
        ensures
            answer matches Err(e) ==> taken == Err::<(), FetchError>(e) && final(self)@ == old(
                self,
            )@,
            (answer matches Ok(batch) ==> if fits(old(self)@, batch@) {
                taken is Ok && final(self)@ == after(old(self)@, batch@)
            } else {
                taken == Err::<(), FetchError>(FetchError::PageOverflow) && final(self)@ == old(
                    self,
                )@
            }),
            taken is Ok ==> remaining(final(self)@) < remaining(old(self)@) || old(self)@.done,
    {
        match answer {
            Ok(batch) => self.accept(batch),
            Err(e) => Err(e),
        }
    }

    /// Whether the stream has ended.
    pub fn is_done(&self) -> (done: bool)
        ensures
            done == self@.done,
    {
        self.done
    }

    /// The records collected, in arrival order.
    pub fn into_items(self) -> (items: Vec<T>)
        ensures
            items@ == self@.items,
    {
        self.items
    }
}

/// The state that a run of pages leads to.
pub open spec fn fed<T>(state: PagerState<T>, pages: Seq<Seq<T>>) -> PagerState<T>
    decreases pages.len(),
{
    if pages.len() == 0 {
        state
    } else {
        after(fed(state, pages.drop_last()), pages.last())
    }
}

/// The records of a run of pages, one page after the other.
pub open spec fn joined<T>(pages: Seq<Seq<T>>) -> Seq<T>
    decreases pages.len(),
{
    if pages.len() == 0 {
        Seq::empty()
    } else {
        joined(pages.drop_last()) + pages.last()
    }
}

/// Whether none of the pages is empty.
pub open spec fn all_full<T>(pages: Seq<Seq<T>>) -> bool {
    forall|i: int| 0 <= i < pages.len() ==> (#[trigger] pages[i]).len() > 0
}

/// Where a run of full pages leads from the start: to the page after them,
/// with their records joined, and not to the end.
pub proof fn lemma_full_pages<T>(pages: Seq<Seq<T>>)
    requires
        all_full(pages),
    ensures
        fed(start::<T>(), pages) == (PagerState {
            page: pages.len() + 1,
            items: joined(pages),
            done: false,
        }),
    decreases pages.len(),
{
    if pages.len() > 0 {
        let earlier = pages.drop_last();
        assert forall|i: int| 0 <= i < earlier.len() implies (#[trigger] earlier[i]).len() > 0 by {
            assert(earlier[i] == pages[i]);
        }
        lemma_full_pages(earlier);
        assert(pages.last() == pages[pages.len() - 1]);
    }
}

/// Pagination ends with the first empty page. When a stream answers with `n`
/// full pages and then an empty one, the walk asks for the pages 1 to `n + 1`
/// in turn, each page is taken in, and after the empty page it asks for
/// nothing more and holds the records of the `n` pages in arrival order.
pub proof fn law_pagination_ends_with_empty_page<T>(pages: Seq<Seq<T>>)
    requires
        all_full(pages),
        pages.len() < u64::MAX,
    ensures
        forall|k: int|
            0 <= k <= pages.len() ==> next_request(#[trigger] fed(start::<T>(), pages.take(k)))
                == Some(page_params((k + 1) as u64)),
        forall|k: int|
            0 <= k < pages.len() ==> fits(
                #[trigger] fed(start::<T>(), pages.take(k)),
                pages[k],
            ),
        fits(fed(start::<T>(), pages), Seq::<T>::empty()),
        next_request(after(fed(start::<T>(), pages), Seq::<T>::empty())) is None,
        after(fed(start::<T>(), pages), Seq::<T>::empty()).items == joined(pages),
{
    assert forall|k: int| 0 <= k <= pages.len() implies (#[trigger] fed(
        start::<T>(),
        pages.take(k),
    )) == (PagerState { page: (k + 1) as nat, items: joined(pages.take(k)), done: false }) by {
        let shorter = pages.take(k);
        assert forall|i: int| 0 <= i < shorter.len() implies (#[trigger] shorter[i]).len()
            > 0 by {
            assert(shorter[i] == pages[i]);
        }
        lemma_full_pages(shorter);
    }
    lemma_full_pages(pages);
}

} // verus!
