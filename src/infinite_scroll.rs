//! Infinite-scroll accumulation for narrow viewports: pages are kept by
//! offset, each with its load status, and a proximity trigger asks for the
//! next page only when nothing is known of it yet.
use vstd::prelude::*;
use std::collections::BTreeMap;
use crate::listing::SortType;
use crate::paging::{PageKey, copy_cursor, first_page};

verus! {

broadcast use vstd::std_specs::btree::group_btree_axioms;

/// Where a page's fetch stands.
#[derive(Debug, Clone, Copy, PartialEq, Eq, PartialOrd, Ord, Hash, Structural)]
pub enum ResourceStatus {
    Loading,
    Loaded,
    Failed,
}

/// What is known of one page: its status, the cursor it was requested with
/// and, once loaded, its payload.
#[derive(Debug)]
pub struct PageEntry<P> {
    pub status: ResourceStatus,
    pub cursor: Option<String>,
    pub payload: Option<P>,
}

/// The entry of a page whose fetch is under way.
pub open spec fn loading_entry<P>(cursor: Option<String>) -> PageEntry<P> {
    PageEntry { status: ResourceStatus::Loading, cursor, payload: None }
}

/// The entry of a page that loaded.
pub open spec fn ok_entry<P>(cursor: Option<String>, payload: P) -> PageEntry<P> {
    PageEntry { status: ResourceStatus::Loaded, cursor, payload: Some(payload) }
}

/// The entry of a page whose fetch failed.
pub open spec fn err_entry<P>(cursor: Option<String>) -> PageEntry<P> {
    PageEntry { status: ResourceStatus::Failed, cursor, payload: None }
}

/// The entries after a proximity trigger for the page at `next`: a loading
/// entry is added only where the offset has no entry in any status.
pub open spec fn triggered<P>(entries: Map<usize, PageEntry<P>>, next: PageKey) -> Map<
    usize,
    PageEntry<P>,
> {
    if entries.contains_key(next.offset) {
        entries
    } else {
        entries.insert(next.offset, loading_entry(next.cursor))
    }
}

/// The request a proximity trigger issues: the page at `next`, unless its
/// offset already has an entry.
pub open spec fn trigger_request<P>(entries: Map<usize, PageEntry<P>>, next: PageKey) -> Option<
    PageKey,
> {
    if entries.contains_key(next.offset) {
        None
    } else {
        Some(next)
    }
}

/// Two proximity triggers for the same page before the first resolves issue
/// one request, and leave one entry for its offset, which is loading.
pub proof fn lemma_trigger_idempotent<P>(entries: Map<usize, PageEntry<P>>, next: PageKey)
    ensures
        triggered(triggered(entries, next), next) == triggered(entries, next),
        trigger_request(triggered(entries, next), next) is None,
        trigger_request(entries, next) is Some ==> triggered(entries, next)[next.offset]
            == loading_entry::<P>(next.cursor),
{
}

/// The pages fetched so far for one sort order, by offset, and the position
/// of the page to fetch next.
#[derive(Debug)]
pub struct InfiniteScrollAccumulator<P> {
    pub entries: BTreeMap<usize, PageEntry<P>>,
    pub next: PageKey,
    pub sort: SortType,
    pub limit: usize,
}

impl<P> InfiniteScrollAccumulator<P> {
    /// Holds only pages that loaded with a payload, and payloads only there.
    pub open spec fn wf(&self) -> bool {
        forall|o: usize|
            #[trigger] self.entries@.contains_key(o) ==> (self.entries@[o].status
                == ResourceStatus::Loaded <==> self.entries@[o].payload is Some)
    }

    /// Nothing fetched yet: the next page is the first one.
    pub fn new(sort: SortType, limit: usize) -> (r: Self)
        ensures
            r.wf(),
            r.entries@ == Map::<usize, PageEntry<P>>::empty(),
            r.next@ == first_page(),
            r.sort == sort,
            r.limit == limit,
    {
        InfiniteScrollAccumulator { entries: BTreeMap::new(), next: PageKey::first(), sort, limit }
    }

    /// Whether some entry exists for `offset`, in any status.
    pub fn has_entry(&self, offset: usize) -> (r: bool)
        ensures
            r == self.entries@.contains_key(offset),
    {
        self.entries.contains_key(&offset)
    }

    /// The user neared the end of what is shown: marks the next page as
    /// loading and returns the request to issue, unless that page already
    /// has an entry.
    pub fn trigger(&mut self) -> (r: Option<PageKey>)
        requires
            old(self).wf(),
        ensures
            final(self).wf(),
            final(self).entries@ == triggered(old(self).entries@, old(self).next),
            r == trigger_request(old(self).entries@, old(self).next),
            final(self).next == old(self).next,
            final(self).sort == old(self).sort,
            final(self).limit == old(self).limit,
    {
        if self.entries.contains_key(&self.next.offset) {
            None
        } else {
            let entry = PageEntry {
                status: ResourceStatus::Loading,
                cursor: copy_cursor(&self.next.cursor),
                payload: None,
            };
            self.entries.insert(self.next.offset, entry);
            Some(self.next.copy())
        }
    }

    /// The fetch for `request` returned `payload` and named `next_cursor`
    /// for the page after it: the page is kept as loaded, and the page
    /// `limit` items further becomes the next one to fetch.
    pub fn on_success(&mut self, request: PageKey, payload: P, next_cursor: Option<String>)
        requires
            old(self).wf(),
            request.offset + old(self).limit <= usize::MAX,
        ensures
            final(self).wf(),
            final(self).entries@ == old(self).entries@.insert(
                request.offset,
                ok_entry(request.cursor, payload),
            ),
            final(self).next == (PageKey {
                offset: (request.offset + old(self).limit) as usize,
                cursor: next_cursor,
            }),
            final(self).sort == old(self).sort,
            final(self).limit == old(self).limit,
    {
        let offset = request.offset;
        self.entries.insert(
            offset,
            PageEntry { status: ResourceStatus::Loaded, cursor: request.cursor, payload: Some(payload) },
        );
        self.next = PageKey { offset: offset + self.limit, cursor: next_cursor };
    }

    /// The fetch for `request` failed: the page is kept as failed, ready for
    /// a retry.
    pub fn on_failure(&mut self, request: PageKey)
        requires
            old(self).wf(),
        ensures
            final(self).wf(),
            final(self).entries@ == old(self).entries@.insert(
                request.offset,
                err_entry(request.cursor),
            ),
            final(self).next == old(self).next,
            final(self).sort == old(self).sort,
            final(self).limit == old(self).limit,
    {
        self.entries.insert(
            request.offset,
            PageEntry { status: ResourceStatus::Failed, cursor: request.cursor, payload: None },
        );
    }

    /// Retries the failed page at `offset` with the cursor it was first
    /// requested with: it becomes loading again and the request is returned.
    /// Nothing happens where that page has not failed.
    pub fn retry(&mut self, offset: usize) -> (r: Option<PageKey>)
        requires
            old(self).wf(),
        ensures
            final(self).wf(),
            old(self).entries@.contains_key(offset) && old(self).entries@[offset].status
                == ResourceStatus::Failed ==> {
                &&& r == Some(PageKey { offset, cursor: old(self).entries@[offset].cursor })
                &&& final(self).entries@ == old(self).entries@.insert(
                    offset,
                    loading_entry(old(self).entries@[offset].cursor),
                )
            },
            !(old(self).entries@.contains_key(offset) && old(self).entries@[offset].status
                == ResourceStatus::Failed) ==> r is None && final(self).entries@ == old(
                self,
            ).entries@,
            final(self).next == old(self).next,
            final(self).sort == old(self).sort,
            final(self).limit == old(self).limit,
    {
        let cursor = match self.entries.get(&offset) {
            Some(e) => {
                if e.status == ResourceStatus::Failed {
                    Some(copy_cursor(&e.cursor))
                } else {
                    None
                }
            },
            None => None,
        };
        match cursor {
            Some(c) => {
                let entry = PageEntry {
                    status: ResourceStatus::Loading,
                    cursor: copy_cursor(&c),
                    payload: None,
                };
                self.entries.insert(offset, entry);
                Some(PageKey { offset, cursor: c })
            },
            None => None,
        }
    }

    /// Forgets every page and starts again from the first one, keeping the
    /// sort order.
    pub fn reset(&mut self)
        ensures
            final(self).wf(),
            final(self).entries@ == Map::<usize, PageEntry<P>>::empty(),
            final(self).next@ == first_page(),
            final(self).sort == old(self).sort,
            final(self).limit == old(self).limit,
    {
        self.entries.clear();
        self.next = PageKey::first();
    }

    /// A new sort order invalidates every cursor: all pages are forgotten
    /// and the next page is the first one, under the new order.
    pub fn change_sort(&mut self, sort: SortType)
        ensures
            final(self).wf(),
            final(self).entries@ == Map::<usize, PageEntry<P>>::empty(),
            final(self).next@ == first_page(),
            final(self).sort == sort,
            final(self).limit == old(self).limit,
    {
        self.reset();
        self.sort = sort;
    }
}

} // verus!
