//! Walking a listing that the service hands out page by page.
//!
//! The first page of a listing tells how many entries there are in all. From
//! that, a [`Listing`] decides which further pages to ask for and when to stop;
//! fetching them is left to whoever holds the connection.
//!
//! The walk goes up to the last full page: entries on a page that is only partly
//! filled at the end of the listing are not asked for.

use crate::types::api::ApiMeta;
use vstd::prelude::*;

verus! {

/// The last page of a walk, by what the first page tells: the number of full
/// pages in the listing. A first page that tells nothing, or gives zero as the
/// size of a page, leaves no page to walk to.
pub open spec fn last_page(meta: Option<ApiMeta>) -> nat {
    match meta {
        Some(meta) => if meta.limit == 0 {
            0
        } else {
            (meta.total / meta.limit) as nat
        },
        None => 0,
    }
}

/// The number of entries to stop at: `limit`, or no bound but that of the machine.
pub open spec fn entry_bound(limit: Option<usize>) -> nat {
    match limit {
        Some(limit) => limit as nat,
        None => usize::MAX as nat,
    }
}

/// The mathematical value of a walk through a listing.
pub struct ListingView<R> {
    /// The entries gathered so far.
    pub entries: Seq<R>,
    /// The next page to ask for.
    pub next_page: nat,
    /// The last page to ask for.
    pub last_page: nat,
    /// The number of entries at which the walk ends.
    pub limit: nat,
}

impl<R> ListingView<R> {
    /// The walk as it stands once the first page is in.
    pub open spec fn begun(first: Seq<R>, meta: Option<ApiMeta>, limit: Option<usize>) -> Self {
        ListingView {
            entries: first,
            next_page: 2,
            last_page: last_page(meta),
            limit: entry_bound(limit),
        }
    }

    /// Whether another page is to be fetched: the last page has not been passed,
    /// and fewer entries are held than were asked for.
    pub open spec fn unfinished(self) -> bool {
        self.next_page <= self.last_page && self.entries.len() < self.limit
    }

    /// The walk after `page` came in: its entries are added and the next page is
    /// up, unless the walk had finished, when the page is dropped.
    pub open spec fn absorbed(self, page: Seq<R>) -> Self {
        if self.unfinished() {
            ListingView { entries: self.entries + page, next_page: self.next_page + 1, ..self }
        } else {
            self
        }
    }

    /// What the walk hands out: the entries gathered, cut off at the limit.
    pub open spec fn listed(self) -> Seq<R> {
        if self.limit <= self.entries.len() {
            self.entries.take(self.limit as int)
        } else {
            self.entries
        }
    }
}

/// A walk through the pages of a listing, begun with its first page.
#[derive(Debug)]
pub struct Listing<R> {
    entries: Vec<R>,
    next_page: u64,
    last_page: u32,
    limit: usize,
}

impl<R> View for Listing<R> {
    type V = ListingView<R>;

    closed spec fn view(&self) -> ListingView<R> {
        ListingView {
            entries: self.entries@,
            next_page: self.next_page as nat,
            last_page: self.last_page as nat,
            limit: self.limit as nat,
        }
    }
}

impl<R> Listing<R> {
    /// Begins a walk with the entries of the first page, what that page told of
    /// the whole listing, and the number of entries asked for, if any.
    pub fn begin(first: Vec<R>, meta: Option<ApiMeta>, limit: Option<usize>) -> (listing: Self)
        ensures
            listing@ == ListingView::begun(first@, meta, limit),
    {
        let last_page: u32 = match meta {
            Some(meta) => if meta.limit == 0 {
                0
            } else {
                meta.total / meta.limit
            },
            None => 0,
        };
        let limit: usize = match limit {
            Some(limit) => limit,
            None => usize::MAX,
        };
        Listing { entries: first, next_page: 2, last_page, limit }
    }

    /// The page to fetch next, or nothing once the walk has finished.
    pub fn wanted(&self) -> (page: Option<u32>)
        ensures
            page is Some <==> self@.unfinished(),
            page matches Some(number) ==> number == self@.next_page,
    {
        if self.next_page <= self.last_page as u64 && self.entries.len() < self.limit {
            Some(self.next_page as u32)
        } else {
            None
        }
    }

    /// Takes in the entries of the page that was fetched.
    pub fn absorb(&mut self, page: Vec<R>)
        ensures
            final(self)@ == old(self)@.absorbed(page@),
    {
        if self.next_page <= self.last_page as u64 && self.entries.len() < self.limit {
            let mut page = page;
            self.entries.append(&mut page);
            self.next_page = self.next_page + 1;
        }
    }

    /// Ends the walk and hands out its entries, cut off at the limit.
    pub fn finish(self) -> (entries: Vec<R>)
        ensures
            entries@ == self@.listed(),
    {
        let mut entries = self.entries;
        entries.truncate(self.limit);
        entries
    }
}

} // verus!
