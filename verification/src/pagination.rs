use vstd::prelude::*;

verus! {

/// Number of items shown on one page when the request does not say.
pub const DEFAULT_ITEMS_PER_PAGE: u32 = 5;

/// The page that a listing request asks for, and how many items a page holds.
pub struct PaginationParams {
    pub page: u32,
    pub items_per_page: Option<u32>,
}

/// What a listing template needs to draw its page links.
pub struct PaginationContext {
    /// The page shown, clamped into `1..=pages.len()`.
    pub current: u32,
    /// Every page number, from 1 up to the number of pages.
    pub pages: Vec<u32>,
    /// The page before the requested one, if the request was past the first page.
    pub prev: Option<u32>,
    /// The page after the requested one, if there is such a page.
    pub next: Option<u32>,
}

/// Items per page of a request: the given number, or the default.
pub open spec fn spec_items_per_page(items_per_page: Option<u32>) -> int {
    match items_per_page {
        Some(n) => n as int,
        None => DEFAULT_ITEMS_PER_PAGE as int,
    }
}

/// Number of pages needed for `total_items` items, `per_page` to a page;
/// an empty listing still has one (empty) page.
pub open spec fn spec_total_pages(total_items: int, per_page: int) -> int {
    if total_items % per_page > 0 {
        total_items / per_page + 1
    } else if total_items / per_page == 0 {
        1
    } else {
        total_items / per_page
    }
}

/// The requested page, clamped into `1..=total_pages`.
pub open spec fn spec_current_page(page: int, total_pages: int) -> int {
    if page < 1 {
        1
    } else if page >= total_pages {
        total_pages
    } else {
        page
    }
}

/// The page numbers `1, 2, ..., total_pages`.
pub open spec fn spec_page_numbers(total_pages: int) -> Seq<u32> {
    Seq::new(total_pages as nat, |i: int| (i + 1) as u32)
}

impl PaginationParams {
    /// The request's items per page (`None` stands for the default).
    pub open spec fn per_page(&self) -> int {
        spec_items_per_page(self.items_per_page)
    }

    /// What `context` asks of its inputs: a page holds at least one item,
    /// and the page numbers `1..=total_pages` fit in a `u32` range.
    pub open spec fn context_defined(&self, total_items: u32) -> bool {
        &&& self.per_page() != 0
        &&& spec_total_pages(total_items as int, self.per_page()) < u32::MAX
    }

    /// What `context` gives for a listing of `total_items` items: the
    /// requested page clamped into range, every page number, and links to the
    /// pages next to the requested one.
    pub open spec fn spec_context(&self, total_items: u32, ctx: PaginationContext) -> bool {
        let total = spec_total_pages(total_items as int, self.per_page());
        &&& ctx.current as int == spec_current_page(self.page as int, total)
        &&& ctx.pages@ == spec_page_numbers(total)
        &&& ctx.prev == (if self.page <= 1 {
            None::<u32>
        } else {
            Some((self.page - 1) as u32)
        })
        &&& ctx.next == (if (self.page as int) < total {
            Some((self.page + 1) as u32)
        } else {
            None::<u32>
        })
    }

    /// Page links for a listing of `total_items` items.
    pub fn context(self, total_items: u32) -> (ctx: PaginationContext)
        requires
            self.context_defined(total_items),
        ensures
            self.spec_context(total_items, ctx),
    {
        let per_page: u32 = match self.items_per_page {
            Some(n) => n,
            None => DEFAULT_ITEMS_PER_PAGE,
        };
        let mut total_pages: u32 = total_items / per_page;
        if total_items % per_page > 0 {
            assert(total_pages < u32::MAX) by (nonlinear_arith)
                requires
                    total_pages == total_items / per_page,
                    total_items % per_page > 0,
                    per_page > 0,
            ;
            total_pages = total_pages + 1;
        } else if total_pages == 0 {
            total_pages = 1;
        }
        assert(total_pages as int == spec_total_pages(total_items as int, per_page as int));

        let current: u32 = if self.page < 1 {
            1
        } else if self.page >= total_pages {
            total_pages
        } else {
            self.page
        };

        let mut pages: Vec<u32> = Vec::new();
        let mut n: u32 = 1;
        while n < total_pages + 1
            invariant
                1 <= n <= total_pages + 1,
                total_pages < u32::MAX,
                pages@ == spec_page_numbers(n - 1),
            decreases total_pages + 1 - n,
        {
            pages.push(n);
            n = n + 1;
            assert(pages@ =~= spec_page_numbers(n - 1));
        }

        let prev: Option<u32> = if self.page <= 1 {
            None
        } else {
            Some(self.page - 1)
        };
        let next: Option<u32> = if self.page < total_pages {
            Some(self.page + 1)
        } else {
            None
        };
        PaginationContext { current, pages, prev, next }
    }
}

/// The pages hold every item and no page past the last one is needed: with
/// at least one item to a page there is at least one page, the pages together
/// have room for all `total_items`, and when there are items the last page
/// holds at least one of them.
pub proof fn lemma_pages_cover_items(total_items: int, per_page: int)
    requires
        total_items >= 0,
        per_page > 0,
    ensures
        spec_total_pages(total_items, per_page) >= 1,
        spec_total_pages(total_items, per_page) * per_page >= total_items,
        total_items > 0 ==> (spec_total_pages(total_items, per_page) - 1) * per_page < total_items,
{
    let q = total_items / per_page;
    let r = total_items % per_page;
    assert(total_items == q * per_page + r && 0 <= r < per_page && q >= 0) by (nonlinear_arith)
        requires
            q == total_items / per_page,
            r == total_items % per_page,
            per_page > 0,
            total_items >= 0,
    ;
    if r > 0 {
        assert((q + 1) * per_page == q * per_page + per_page) by (nonlinear_arith);
        assert(q * per_page + per_page - per_page == q * per_page);
    } else if q == 0 {
        assert(q * per_page == 0) by (nonlinear_arith)
            requires
                q == 0,
        ;
        assert(1 * per_page == per_page);
    } else {
        assert((q - 1) * per_page == q * per_page - per_page) by (nonlinear_arith);
    }
}

/// The page shown is always one of the pages, and a request for an existing
/// page is shown as asked.
pub proof fn lemma_current_page_in_range(page: int, total_pages: int)
    requires
        total_pages >= 1,
    ensures
        1 <= spec_current_page(page, total_pages) <= total_pages,
        1 <= page <= total_pages ==> spec_current_page(page, total_pages) == page,
        spec_page_numbers(total_pages).len() == total_pages,
        spec_page_numbers(total_pages).contains(spec_current_page(page, total_pages) as u32),
{
    let c = spec_current_page(page, total_pages);
    assert(spec_page_numbers(total_pages)[c - 1] == c as u32);
}

/// The links of a context built by `context` point at existing pages only:
/// `next` is at most the last page, `prev` at least the first, and the
/// shown page lies between the first and the last one.
pub proof fn lemma_context_links_in_range(params: PaginationParams, total_items: u32)
    requires
        params.context_defined(total_items),
    ensures
        ({
            let total = spec_total_pages(total_items as int, params.per_page());
            &&& total >= 1
            &&& 1 <= spec_current_page(params.page as int, total) <= total
            &&& (params.page as int) < total ==> params.page + 1 <= total
            &&& params.page > 1 ==> params.page - 1 >= 1
        }),
{
    lemma_pages_cover_items(total_items as int, params.per_page());
    lemma_current_page_in_range(
        params.page as int,
        spec_total_pages(total_items as int, params.per_page()),
    );
}

/// The page links, read off the context alone: the pages are numbered
/// `1..=n`; together they have room for every item and, when there are items,
/// the last page is not empty; the page shown is the requested one when it
/// exists, else the nearest end; `prev` is the page before the requested one
/// when that is past the first page, `next` the page after it when that
/// exists.
pub proof fn lemma_context_shape(params: PaginationParams, total_items: u32, ctx: PaginationContext)
    requires
        params.context_defined(total_items),
        params.spec_context(total_items, ctx),
    ensures
        params.items_per_page matches Some(k) ==> params.per_page() == k,
        params.items_per_page is None ==> params.per_page() == DEFAULT_ITEMS_PER_PAGE,
        ctx.pages@.len() >= 1,
        forall|i: int| 0 <= i < ctx.pages@.len() ==> #[trigger] ctx.pages@[i] == i + 1,
        ctx.pages@.len() * params.per_page() >= total_items,
        total_items > 0 ==> (ctx.pages@.len() - 1) * params.per_page() < total_items,
        total_items == 0 ==> ctx.pages@.len() == 1,
        1 <= ctx.current <= ctx.pages@.len(),
        1 <= params.page <= ctx.pages@.len() ==> ctx.current == params.page,
        params.page < 1 ==> ctx.current == 1,
        params.page > ctx.pages@.len() ==> ctx.current == ctx.pages@.len(),
        ctx.prev is Some <==> params.page > 1,
        ctx.prev matches Some(p) ==> p == params.page - 1,
        ctx.next is Some <==> params.page < ctx.pages@.len(),
        ctx.next matches Some(q) ==> q == params.page + 1,
{
    lemma_pages_cover_items(total_items as int, params.per_page());
    let total = spec_total_pages(total_items as int, params.per_page());
    lemma_current_page_in_range(params.page as int, total);
    if total_items == 0 {
        assert(0int / params.per_page() == 0 && 0int % params.per_page() == 0) by (nonlinear_arith)
            requires
                params.per_page() > 0,
        ;
    }
}

impl Default for PaginationParams {
    /// The first page, five items to a page.
    fn default() -> (params: PaginationParams)
        ensures
            params.page == 1,
            params.items_per_page == Some(DEFAULT_ITEMS_PER_PAGE),
    {
        PaginationParams { page: 1, items_per_page: Some(DEFAULT_ITEMS_PER_PAGE) }
    }
}

} // verus!
