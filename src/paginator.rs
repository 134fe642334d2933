//! Driving a paged listing of a remote collection.
//!
//! The caller asks [`Paginator::next_request`] for the next page to fetch,
//! fetches it, and hands the answer to [`Paginator::accept_page`], until no
//! request is left. The total announced by the first page is kept for the
//! whole run; later pages cannot change it.
use vstd::arithmetic::div_mod::lemma_fundamental_div_mod;
use vstd::prelude::*;

use crate::error::{FetchError, FetchErrorKind};
use crate::item::Item;

verus! {

/// A request for the items at `offset .. offset + limit`.
#[derive(Clone, Copy, Debug, PartialEq, Eq, Structural)]
pub struct PageRequest {
    pub offset: usize,
    pub limit: usize,
}

/// One page as the remote store returned it, with the total it announced.
#[derive(Clone, Debug)]
pub struct Page {
    pub items: Vec<Item>,
    pub total: usize,
}

/// The state of a paged listing.
pub ghost struct PaginatorView {
    pub page_size: nat,
    /// The total, once the first page has announced it.
    pub total: Option<nat>,
    /// Offset of the next page to request.
    pub offset: nat,
    /// The items received so far, in page order.
    pub items: Seq<Item>,
}

/// The state before the first request.
pub open spec fn initial_state(page_size: nat) -> PaginatorView {
    PaginatorView { page_size, total: None, offset: 0, items: Seq::empty() }
}

/// The next request of state `v`: none once the offset has reached the total.
pub open spec fn request_of(v: PaginatorView) -> Option<(nat, nat)> {
    match v.total {
        Some(t) if v.offset >= t => None,
        _ => Some((v.offset, v.page_size)),
    }
}

/// The total that is in force after a page that announced `announced`.
pub open spec fn total_after(v: PaginatorView, announced: nat) -> nat {
    match v.total {
        Some(t) => t,
        None => announced,
    }
}

/// A page of `len` items fits: no more items than requested, none past the total.
pub open spec fn page_fits(v: PaginatorView, len: nat, announced: nat) -> bool {
    &&& len <= v.page_size
    &&& v.offset + len <= total_after(v, announced)
}

/// The offset after `o` by one page of `p`, held at the largest `usize`.
pub open spec fn advance(o: nat, p: nat) -> nat {
    if o + p > usize::MAX { usize::MAX as nat } else { o + p }
}

/// The state after a fitting page.
pub open spec fn after_page(v: PaginatorView, page: Seq<Item>, announced: nat) -> PaginatorView {
    PaginatorView {
        page_size: v.page_size,
        total: Some(total_after(v, announced)),
        offset: advance(v.offset, v.page_size),
        items: v.items + page,
    }
}

/// The page that a store holding exactly `s` returns for `offset .. offset + limit`.
pub open spec fn store_page(s: Seq<Item>, offset: nat, limit: nat) -> Seq<Item> {
    if offset >= s.len() {
        Seq::empty()
    } else if offset + limit >= s.len() {
        s.subrange(offset as int, s.len() as int)
    } else {
        s.subrange(offset as int, (offset + limit) as int)
    }
}

/// The state after at most `fuel` rounds against a store holding exactly `s`.
pub open spec fn run_against(v: PaginatorView, s: Seq<Item>, fuel: nat) -> PaginatorView
    decreases fuel,
{
    if fuel == 0 {
        v
    } else {
        match request_of(v) {
            None => v,
            Some((o, l)) => {
                let page = store_page(s, o, l);
                if page_fits(v, page.len(), s.len()) {
                    run_against(after_page(v, page, s.len()), s, (fuel - 1) as nat)
                } else {
                    v
                }
            },
        }
    }
}

/// The number of pages of `p` items that a listing of `n` items takes; an
/// empty listing still takes the one request that announces its total.
pub open spec fn pages_needed(n: nat, p: nat) -> nat
    recommends
        p >= 1,
{
    if n == 0 { 1 } else { ((n + p - 1) as nat / p) as nat }
}

/// A paged listing in progress.
pub struct Paginator {
    page_size: usize,
    total: Option<usize>,
    offset: usize,
    items: Vec<Item>,
}

impl View for Paginator {
    type V = PaginatorView;

    closed spec fn view(&self) -> PaginatorView {
        PaginatorView {
            page_size: self.page_size as nat,
            total: match self.total {
                Some(t) => Some(t as nat),
                None => None,
            },
            offset: self.offset as nat,
            items: self.items@,
        }
    }
}

impl Paginator {
    /// Whether the page size is positive.
    pub closed spec fn wf(&self) -> bool {
        self.page_size >= 1
    }

    /// A listing in pages of `page_size` items.
    pub fn new(page_size: usize) -> (r: Paginator)
        requires
            page_size >= 1,
        ensures
            r.wf(),
            r@ == initial_state(page_size as nat),
    {
        Paginator { page_size, total: None, offset: 0, items: Vec::new() }
    }

    /// The page to fetch next, or `None` when the listing is complete.
    pub fn next_request(&self) -> (r: Option<PageRequest>)
        ensures
            r.is_none() <==> request_of(self@).is_none(),
            r.is_some() ==> request_of(self@) == Some(
                (r.unwrap().offset as nat, r.unwrap().limit as nat),
            ),
    {
        match self.total {
            Some(t) if self.offset >= t => None,
            _ => Some(PageRequest { offset: self.offset, limit: self.page_size }),
        }
    }

    /// Whether the listing is complete.
    pub fn is_finished(&self) -> (r: bool)
        ensures
            r == request_of(self@).is_none(),
    {
        self.next_request().is_none()
    }

    /// Takes in the answer to the current request. A page with more items
    /// than the page size, or reaching past the total, is refused and leaves
    /// the state as it was.
    pub fn accept_page(&mut self, page: Page) -> (r: Result<(), FetchError>)
        requires
            old(self).wf(),
        ensures
            final(self).wf(),
            r.is_ok() <==> page_fits(old(self)@, page.items@.len(), page.total as nat),
            r.is_ok() ==> final(self)@ == after_page(old(self)@, page.items@, page.total as nat),
            r.is_err() ==> final(self)@ == old(self)@ && r->Err_0.kind == FetchErrorKind::MalformedPage,
    {
        let total = match self.total {
            Some(t) => t,
            None => page.total,
        };
        let len = page.items.len();
        if len > self.page_size || len > total || self.offset > total - len {
            return Err(
                FetchError {
                    kind: FetchErrorKind::MalformedPage,
                    message: String::from_str("page does not fit the announced total"),
                },
            );
        }
        let mut page_items = page.items;
        self.items.append(&mut page_items);
        self.total = Some(total);
        self.offset = if self.offset > usize::MAX - self.page_size {
            usize::MAX
        } else {
            self.offset + self.page_size
        };
        Ok(())
    }

    /// The items received so far, in page order.
    pub fn items(&self) -> (r: &Vec<Item>)
        ensures
            r@ == self@.items,
    {
        &self.items
    }

    /// Ends the listing and hands over its items, in page order.
    pub fn into_items(self) -> (r: Vec<Item>)
        ensures
            r@ == self@.items,
    {
        self.items
    }
}

/// Rounds from a state whose items are the store's first `min(offset, n)`
/// items end with all of the store's items and no request left.
proof fn lemma_run_completes(v: PaginatorView, s: Seq<Item>, fuel: nat)
    requires
        v.page_size >= 1,
        s.len() <= usize::MAX,
        v.offset <= usize::MAX,
        v.total == Some(s.len()) || (v.total.is_none() && v.offset == 0 && fuel >= 1),
        v.items == s.subrange(0, if v.offset < s.len() { v.offset as int } else { s.len() as int }),
        v.offset + fuel * v.page_size >= s.len(),
    ensures
        run_against(v, s, fuel).items == s,
        request_of(run_against(v, s, fuel)).is_none(),
    decreases fuel,
{
    let n = s.len();
    if v.total == Some(n) && v.offset >= n {
        assert(v.items == s);
        if fuel > 0 {
            assert(run_against(v, s, fuel) == v);
        }
        return;
    }
    if fuel == 0 {
        assert(fuel * v.page_size == 0) by (nonlinear_arith)
            requires
                fuel == 0,
        ;
    }
    let o = v.offset;
    let p = v.page_size;
    let page = store_page(s, o, p);
    let end: nat = if o + p >= n { n } else { o + p };
    if o < n {
        assert(page == s.subrange(o as int, end as int));
    } else {
        assert(page.len() == 0);
    }
    assert(page_fits(v, page.len(), n));
    let w = after_page(v, page, n);
    assert(w.items == s.subrange(0, end as int)) by {
        if o < n {
            assert(s.subrange(0, o as int) + s.subrange(o as int, end as int) == s.subrange(
                0,
                end as int,
            ));
        } else {
            assert(v.items + page == v.items);
        }
    }
    assert(w.items == s.subrange(0, if w.offset < n { w.offset as int } else { n as int }));
    let f1 = (fuel - 1) as nat;
    assert(w.offset + f1 * p >= n) by (nonlinear_arith)
        requires
            o + fuel * p >= n,
            fuel >= 1,
            w.offset == advance(o, p),
            n <= usize::MAX,
            f1 == fuel - 1,
            p >= 1,
    ;
    lemma_run_completes(w, s, f1);
}

/// A listing driven against a store that holds exactly the items `s` yields
/// exactly those items, in order, whatever the page size, and then asks for
/// nothing more: `pages_needed(|s|, page_size)` rounds are enough.
pub proof fn lemma_pagination_totality(s: Seq<Item>, page_size: nat)
    requires
        1 <= page_size <= usize::MAX,
        s.len() <= usize::MAX,
    ensures
        run_against(initial_state(page_size), s, pages_needed(s.len(), page_size)).items == s,
        run_against(initial_state(page_size), s, pages_needed(s.len(), page_size)).items.len()
            == s.len(),
        request_of(
            run_against(initial_state(page_size), s, pages_needed(s.len(), page_size)),
        ).is_none(),
{
    let n = s.len();
    let f = pages_needed(n, page_size);
    if n > 0 {
        let m = (n + page_size - 1) as nat;
        let q = m / page_size;
        let r = m % page_size;
        lemma_fundamental_div_mod(m as int, page_size as int);
        assert(q * page_size >= n) by (nonlinear_arith)
            requires
                m == n + page_size - 1,
                m == page_size * q + r,
                r < page_size,
        ;
        assert(f == q);
    }
    let v = initial_state(page_size);
    assert(v.items == s.subrange(0, 0));
    lemma_run_completes(v, s, f);
}

} // verus!
