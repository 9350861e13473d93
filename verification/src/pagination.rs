//! The lazy paged-retrieval engine as an explicit pull-based state machine:
//! a cursor that decides which request comes next, and a stream that
//! buffers one page's items and yields them all before the next fetch. The
//! consumer drives progress; the page count is captured once, from the
//! first page's metadata, and a failed fetch ends the sequence with no
//! further requests.

use vstd::prelude::*;
use crate::gateway::pairs_view;
use crate::text::{dec_of, u64_to_dec};

verus! {

/// Pagination metadata of the guild list endpoint. `page_total` is the
/// authoritative number of pages; `total` is informational only.
#[derive(Default, Debug, Clone, Copy, PartialEq, Eq, Structural)]
pub struct GuildListMeta {
    /// current page
    pub page: i64,
    /// authoritative number of pages
    pub page_total: i64,
    /// page size the server answered with
    pub page_size: i64,
    /// total item count, informational only
    pub total: i64,
}

/// Pagination metadata of the guild user-list endpoint.
#[derive(Default, Debug, Clone, Copy, PartialEq, Eq, Structural)]
pub struct GuildListUserMeta {
    /// current page
    pub page: i64,
    /// authoritative number of pages
    pub page_total: i64,
    /// page size the server answered with
    pub page_size: i64,
    /// total item count, informational only
    pub total: i64,
}

impl GuildListUserMeta {
    /// The same metadata in the guild-list shape the engine consumes.
    pub fn as_list_meta(&self) -> (m: GuildListMeta)
        ensures
            m.page == self.page,
            m.page_total == self.page_total,
            m.page_size == self.page_size,
            m.total == self.total,
    {
        GuildListMeta {
            page: self.page,
            page_total: self.page_total,
            page_size: self.page_size,
            total: self.total,
        }
    }
}

/// The server-reported page count, never below one: a report under one
/// means no further pages exist.
pub open spec fn clamp_total(t: i64) -> u64 {
    if t < 1 {
        1
    } else {
        t as u64
    }
}

/// The echoed page size, never negative.
pub open spec fn clamp_size(s: i64) -> u64 {
    if s < 0 {
        0
    } else {
        s as u64
    }
}

/// What the engine asks the caller to fetch next: the first page with the
/// page parameter unset, or a numbered page with the echoed page size.
#[derive(Debug, Clone, Copy, PartialEq, Eq, Structural)]
pub enum PageRequest {
    First,
    Numbered { page: u64, page_size: u64 },
}

impl PageRequest {
    /// The query parameters this request adds: none for the first page,
    /// the page cursor and the echoed page size afterwards.
    pub fn query_params(&self) -> (q: Vec<(String, String)>)
        ensures
            pairs_view(q@) == match self {
                PageRequest::First => Seq::<(Seq<char>, Seq<char>)>::empty(),
                PageRequest::Numbered { page, page_size } => seq![
                    ("page"@, dec_of(page as nat)),
                    ("page_size"@, dec_of(page_size as nat)),
                ],
            },
    {
        let mut q: Vec<(String, String)> = Vec::new();
        match self {
            PageRequest::First => {
                proof {
                    assert(pairs_view(q@) =~= Seq::<(Seq<char>, Seq<char>)>::empty());
                }
            },
            PageRequest::Numbered { page, page_size } => {
                q.push((String::from_str("page"), u64_to_dec(*page)));
                q.push((String::from_str("page_size"), u64_to_dec(*page_size)));
                proof {
                    assert(pairs_view(q@) =~= seq![
                        ("page"@, dec_of(page as nat)),
                        ("page_size"@, dec_of(page_size as nat)),
                    ]);
                }
            },
        }
        q
    }
}

/// Cursor over a paged endpoint: not started until the first page is
/// recorded; afterwards it walks the numbered pages `2..=page_total` in
/// order, with the page count and page size captured once from the first
/// page and never re-read. A recorded failure ends it for good.
#[derive(Debug, Clone, Copy, PartialEq, Eq, Structural)]
pub struct PageCursor {
    /// whether the first page's metadata has been recorded
    pub started: bool,
    /// whether a fetch failed; nothing more is requested after that
    pub failed: bool,
    /// number of pages, captured from the first page
    pub page_total: u64,
    /// page size echoed back from the first page
    pub page_size: u64,
    /// the next page to request
    pub next_page: u64,
}

impl PageCursor {
    /// The states the engine's own steps create.
    pub open spec fn wf(&self) -> bool {
        self.started ==> (1 <= self.page_total <= i64::MAX && 2 <= self.next_page
            <= self.page_total + 1)
    }

    /// A fresh cursor: nothing requested yet.
    pub fn new() -> (c: PageCursor)
        ensures
            c.wf(),
            !c.started,
            !c.failed,
    {
        PageCursor { started: false, failed: false, page_total: 1, page_size: 0, next_page: 2 }
    }

    /// The request this cursor state asks for, if any: the first page
    /// before the start, then each numbered page through `page_total`;
    /// nothing after a failure or past the last page.
    pub open spec fn spec_next_request(&self) -> Option<PageRequest> {
        if self.failed {
            None
        } else if !self.started {
            Some(PageRequest::First)
        } else if self.next_page <= self.page_total {
            Some(PageRequest::Numbered { page: self.next_page, page_size: self.page_size })
        } else {
            None
        }
    }

    /// Exactly `spec_next_request`.
    pub fn next_request(&self) -> (r: Option<PageRequest>)
        requires
            self.wf(),
        ensures
            r == self.spec_next_request(),
    {
        if self.failed {
            None
        } else if !self.started {
            Some(PageRequest::First)
        } else if self.next_page <= self.page_total {
            Some(PageRequest::Numbered { page: self.next_page, page_size: self.page_size })
        } else {
            None
        }
    }

    /// Records the first page's metadata: the page count and page size are
    /// captured here, once, and the cursor moves to page two.
    pub fn record_first(&mut self, meta: &GuildListMeta)
        requires
            old(self).wf(),
            !old(self).started,
            !old(self).failed,
        ensures
            final(self).wf(),
            final(self).started,
            !final(self).failed,
            final(self).page_total == clamp_total(meta.page_total),
            final(self).page_size == clamp_size(meta.page_size),
            final(self).next_page == 2,
    {
        self.started = true;
        self.page_total = if meta.page_total < 1 {
            1
        } else {
            meta.page_total as u64
        };
        self.page_size = if meta.page_size < 0 {
            0
        } else {
            meta.page_size as u64
        };
        self.next_page = 2;
    }

    /// Records one successfully fetched numbered page: only the cursor
    /// advances; the captured page count and size stay as they are.
    pub fn record_page(&mut self)
        requires
            old(self).wf(),
            old(self).started,
            !old(self).failed,
            old(self).next_page <= old(self).page_total,
        ensures
            final(self).wf(),
            final(self).started,
            !final(self).failed,
            final(self).page_total == old(self).page_total,
            final(self).page_size == old(self).page_size,
            final(self).next_page == old(self).next_page + 1,
    {
        self.next_page = self.next_page + 1;
    }

    /// Records a failed fetch: no further request is ever made.
    pub fn record_failure(&mut self)
        requires
            old(self).wf(),
        ensures
            final(self).wf(),
            final(self).failed,
            final(self).started == old(self).started,
            final(self).page_total == old(self).page_total,
            final(self).page_size == old(self).page_size,
            final(self).next_page == old(self).next_page,
    {
        self.failed = true;
    }
}

/// The numbered fetches still ahead of a running cursor, in order.
pub open spec fn pending_requests(c: PageCursor) -> Seq<PageRequest> {
    Seq::new(
        (c.page_total + 1 - c.next_page) as nat,
        |i: int| PageRequest::Numbered { page: (c.next_page + i) as u64, page_size: c.page_size },
    )
}

/// Whole-run law of the page walk. Once the first page's metadata is
/// recorded (`next_page == 2`), the fetches still to come are exactly the
/// pages `2..=page_total`, in increasing order, each echoing the captured
/// page size — so a run that succeeds issues `page_total` requests in all,
/// the first page's included — and the cursor always asks for the head of
/// this sequence.
pub proof fn lemma_run_request_order(c: PageCursor)
    requires
        c.wf(),
        c.started,
        !c.failed,
    ensures
        pending_requests(c).len() == c.page_total + 1 - c.next_page,
        c.next_page == 2 ==> pending_requests(c).len() == c.page_total - 1,
        forall|i: int|
            0 <= i < pending_requests(c).len() ==> pending_requests(c)[i] == (
            PageRequest::Numbered { page: (c.next_page + i) as u64, page_size: c.page_size }),
        pending_requests(c).len() > 0 ==> c.spec_next_request() == Some(pending_requests(c)[0]),
        pending_requests(c).len() == 0 ==> (c.spec_next_request() is None),
{
}

/// Recording one fetched page consumes exactly the head of the pending
/// sequence: the requests of the stepped cursor are the old ones without
/// their first, so every page is fetched once, in order.
pub proof fn lemma_run_request_step(c: PageCursor, c2: PageCursor)
    requires
        c.wf(),
        c.started,
        !c.failed,
        c.next_page <= c.page_total,
        c2.started == c.started,
        c2.failed == c.failed,
        c2.page_total == c.page_total,
        c2.page_size == c.page_size,
        c2.next_page == c.next_page + 1,
    ensures
        pending_requests(c) == seq![
            PageRequest::Numbered { page: c.next_page, page_size: c.page_size },
        ] + pending_requests(c2),
{
    assert(pending_requests(c) =~= seq![
        PageRequest::Numbered { page: c.next_page, page_size: c.page_size },
    ] + pending_requests(c2));
}

/// What one `poll` of a page stream produces: the next buffered item, a
/// request the caller must perform before polling again, or the end.
#[derive(Debug, Clone, PartialEq)]
pub enum PollResult<T> {
    Item(T),
    Fetch(PageRequest),
    End,
}

/// A pull-based stream over a paged endpoint: buffered items of the
/// current page, yielded in order and all of them before any further
/// request, and the cursor that decides what to fetch next. Each stream
/// owns its cursor, so independent iterations never share state.
#[derive(Debug, Clone, PartialEq)]
pub struct PageStream<T> {
    /// items of the current page not yet yielded, in server order
    pub buffer: Vec<T>,
    /// where the walk over the pages stands
    pub cursor: PageCursor,
}

impl<T> PageStream<T> {
    pub open spec fn wf(&self) -> bool {
        self.cursor.wf()
    }

    /// Whether `poll` would ask for a fetch: nothing buffered and a
    /// request pending.
    pub open spec fn awaiting_page(&self) -> bool {
        self.buffer@.len() == 0 && !self.cursor.failed && (!self.cursor.started
            || self.cursor.next_page <= self.cursor.page_total)
    }

    /// A fresh stream: the next poll asks for the first page.
    pub fn new() -> (s: PageStream<T>)
        ensures
            s.wf(),
            s.buffer@.len() == 0,
            !s.cursor.started,
            !s.cursor.failed,
            s.awaiting_page(),
    {
        PageStream { buffer: Vec::new(), cursor: PageCursor::new() }
    }

    /// Exactly `awaiting_page`, for callers outside the proofs.
    pub fn is_awaiting_page(&self) -> (b: bool)
        requires
            self.wf(),
        ensures
            b == self.awaiting_page(),
    {
        if self.buffer.len() != 0 {
            false
        } else {
            match self.cursor.next_request() {
                Some(_) => true,
                None => false,
            }
        }
    }

    /// One step of the sequence: the first buffered item while any is
    /// left (the stream is otherwise untouched, so no request ever
    /// precedes the current page's last item), else the fetch the caller
    /// must perform, else the end.
    pub fn poll(&mut self) -> (r: PollResult<T>)
        requires
            old(self).wf(),
        ensures
            final(self).wf(),
            old(self).buffer@.len() > 0 ==> (r matches PollResult::Item(t) && t == old(self).buffer@[0] && final(self).buffer@ == old(self).buffer@.drop_first() && final(self).cursor == old(self).cursor),
            old(self).buffer@.len() == 0 ==> *final(self) == *old(self),
            old(self).buffer@.len() == 0 && old(self).cursor.failed ==> r matches PollResult::End,
            old(self).buffer@.len() == 0 && !old(self).cursor.failed && !old(self).cursor.started ==> r == PollResult::<T>::Fetch(PageRequest::First),
            old(self).buffer@.len() == 0 && !old(self).cursor.failed && old(self).cursor.started
                && old(self).cursor.next_page <= old(self).cursor.page_total ==> r
                == PollResult::<T>::Fetch(
                PageRequest::Numbered {
                    page: old(self).cursor.next_page,
                    page_size: old(self).cursor.page_size,
                },
            ),
            old(self).buffer@.len() == 0 && !old(self).cursor.failed && old(self).cursor.started
                && old(self).cursor.next_page > old(self).cursor.page_total ==> r
                matches PollResult::End,
    {
        if self.buffer.len() > 0 {
            let item = self.buffer.remove(0);
            PollResult::Item(item)
        } else {
            match self.cursor.next_request() {
                Some(rq) => PollResult::Fetch(rq),
                None => PollResult::End,
            }
        }
    }

    /// Hands the engine one fetched page: its items are buffered whole, in
    /// order, and the cursor advances — capturing the metadata if this was
    /// the first page, merely stepping past the page otherwise.
    pub fn supply_page(&mut self, items: Vec<T>, meta: &GuildListMeta)
        requires
            old(self).wf(),
            old(self).awaiting_page(),
        ensures
            final(self).wf(),
            final(self).buffer@ == items@,
            !final(self).cursor.failed,
            final(self).cursor.started,
            !old(self).cursor.started ==> final(self).cursor.page_total == clamp_total(
                meta.page_total,
            ) && final(self).cursor.page_size == clamp_size(meta.page_size) && final(self).cursor.next_page == 2,
            old(self).cursor.started ==> final(self).cursor.page_total == old(self).cursor.page_total && final(self).cursor.page_size == old(self).cursor.page_size
                && final(self).cursor.next_page == old(self).cursor.next_page + 1,
    {
        if !self.cursor.started {
            self.cursor.record_first(meta);
        } else {
            self.cursor.record_page();
        }
        self.buffer = items;
    }

    /// Records a failed fetch: every later poll ends the sequence, and no
    /// request for any further page is ever produced.
    pub fn fail(&mut self)
        requires
            old(self).wf(),
        ensures
            final(self).wf(),
            final(self).buffer@ == old(self).buffer@,
            final(self).cursor.failed,
            !final(self).awaiting_page(),
    {
        self.cursor.record_failure();
    }
}

} // verus!
