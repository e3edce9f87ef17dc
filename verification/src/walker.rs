use crate::text::opt_view;
use vstd::prelude::*;

verus! {

/// How many pages one crawl fetches at most.
pub const PAGE_CAP: usize = 10;

/// One page of a search, decoded.
pub struct Page<T> {
    pub nodes: Vec<T>,
    pub next_cursor: Option<String>,
    pub has_more: bool,
}

pub struct PageView<T> {
    pub nodes: Seq<T>,
    pub next_cursor: Option<Seq<char>>,
    pub has_more: bool,
}

impl<T> View for Page<T> {
    type V = PageView<T>;

    open spec fn view(&self) -> PageView<T> {
        PageView {
            nodes: self.nodes@,
            next_cursor: opt_view(self.next_cursor),
            has_more: self.has_more,
        }
    }
}

/// What a crawl has done so far.
pub struct WalkView<T> {
    /// The cursor that the next fetch sends; `None` for the first page.
    pub cursor: Option<Seq<char>>,
    /// How many pages were fetched.
    pub fetched: nat,
    /// How many pages may be fetched.
    pub page_cap: nat,
    /// Whether the crawl is over.
    pub finished: bool,
    /// The nodes of the pages fetched, in order.
    pub items: Seq<T>,
}

/// What the crawl asks for next.
pub enum WalkAction {
    /// Fetch the page behind this cursor.
    Fetch(Option<String>),
    /// Fetch nothing more.
    Done,
}

/// A crawl before its first fetch.
pub open spec fn start<T>(page_cap: nat) -> WalkView<T> {
    WalkView { cursor: None, fetched: 0, page_cap, finished: page_cap == 0, items: Seq::empty() }
}

/// The crawl after one more page: the nodes are kept, the cursor moves on,
/// and the crawl is over where the page was the last or the cap is reached.
/// A crawl that is over takes no page.
pub open spec fn absorbed<T>(walk: WalkView<T>, page: PageView<T>) -> WalkView<T> {
    if walk.finished {
        walk
    } else {
        WalkView {
            cursor: if page.has_more {
                page.next_cursor
            } else {
                walk.cursor
            },
            fetched: walk.fetched + 1,
            page_cap: walk.page_cap,
            finished: !page.has_more || walk.fetched + 1 >= walk.page_cap,
            items: walk.items + page.nodes,
        }
    }
}

/// The crawl after a fetch failed: it is over, and holds nothing of what
/// it had gathered.
pub open spec fn aborted<T>(walk: WalkView<T>) -> WalkView<T> {
    WalkView { finished: true, items: Seq::empty(), ..walk }
}

/// The crawl after these pages, one after the other.
pub open spec fn walked<T>(walk: WalkView<T>, pages: Seq<PageView<T>>) -> WalkView<T>
    decreases pages.len(),
{
    if pages.len() == 0 {
        walk
    } else {
        absorbed(walked(walk, pages.drop_last()), pages.last())
    }
}

/// The nodes of these pages, one page after the other.
pub open spec fn all_nodes<T>(pages: Seq<PageView<T>>) -> Seq<T>
    decreases pages.len(),
{
    if pages.len() == 0 {
        Seq::empty()
    } else {
        all_nodes(pages.drop_last()) + pages.last().nodes
    }
}

/// Walks the pages of a search: says which page to fetch, takes the page
/// that came, and stops at the last page or at the cap.
pub struct CursorWalker<T> {
    cursor: Option<String>,
    fetched: usize,
    page_cap: usize,
    finished: bool,
    items: Vec<T>,
}

impl<T> View for CursorWalker<T> {
    type V = WalkView<T>;

    closed spec fn view(&self) -> WalkView<T> {
        WalkView {
            cursor: opt_view(self.cursor),
            fetched: self.fetched as nat,
            page_cap: self.page_cap as nat,
            finished: self.finished,
            items: self.items@,
        }
    }
}

impl<T> CursorWalker<T> {
    #[verifier::type_invariant]
    closed spec fn well_formed(&self) -> bool {
        &&& self.fetched <= self.page_cap
        &&& self.fetched == self.page_cap ==> self.finished
    }

    /// A crawl of at most `page_cap` pages, before its first fetch.
    pub fn new(page_cap: usize) -> (walker: Self)
        ensures
            walker@ == start::<T>(page_cap as nat),
    {
        CursorWalker {
            cursor: None,
            fetched: 0,
            page_cap,
            finished: page_cap == 0,
            items: Vec::new(),
        }
    }

    pub fn is_finished(&self) -> (r: bool)
        ensures
            r == self@.finished,
    {
        self.finished
    }

    pub fn pages_fetched(&self) -> (r: usize)
        ensures
            r == self@.fetched,
            self@.fetched <= self@.page_cap,
    {
        proof {
            use_type_invariant(self);
        }
        self.fetched
    }

    /// What to do next: fetch the page behind the cursor, or stop.
    pub fn action(&self) -> (r: WalkAction)
        ensures
            match r {
                WalkAction::Fetch(cursor) => !self@.finished && opt_view(cursor)
                    == self@.cursor,
                WalkAction::Done => self@.finished,
            },
    {
        if self.finished {
            WalkAction::Done
        } else {
            WalkAction::Fetch(self.cursor.clone())
        }
    }

    /// Takes the page that was fetched.
    pub fn absorb(&mut self, page: Page<T>)
        ensures
            final(self)@ == absorbed(old(self)@, page@),
    {
        proof {
            use_type_invariant(&*self);
        }
        if self.finished {
            return ;
        }
        let Page { nodes, next_cursor, has_more } = page;
        let mut nodes = nodes;
        let mut items: Vec<T> = Vec::new();
        core::mem::swap(&mut self.items, &mut items);
        items.append(&mut nodes);
        self.items = items;
        if has_more {
            self.cursor = next_cursor;
        }
        self.finished = !has_more || self.fetched + 1 >= self.page_cap;
        self.fetched = self.fetched + 1;
    }

    /// Takes what a fetch came to. A page is taken as `absorb` takes it. A
    /// failure to fetch or to decode ends the crawl: the failure is handed
    /// on, nothing gathered so far is kept, and no further fetch is asked
    /// for.
    pub fn take<E>(&mut self, fetched: Result<Page<T>, E>) -> (r: Result<(), E>)
        ensures
            match fetched {
                Ok(page) => r is Ok && final(self)@ == absorbed(old(self)@, page@),
                Err(cause) => r == Err::<(), E>(cause) && final(self)@ == aborted(old(self)@),
            },
    {
        match fetched {
            Ok(page) => {
                self.absorb(page);
                Ok(())
            },
            Err(cause) => {
                proof {
                    use_type_invariant(&*self);
                }
                self.finished = true;
                self.items = Vec::new();
                Err(cause)
            },
        }
    }

    /// The nodes of the pages fetched, in order.
    pub fn into_items(self) -> (items: Vec<T>)
        ensures
            items@ == self@.items,
    {
        self.items
    }
}

/// A crawl never fetches more pages than its cap allows, and is over once it
/// has fetched that many.
pub proof fn lemma_walk_bounded<T>(page_cap: nat, pages: Seq<PageView<T>>)
    ensures
        walked(start::<T>(page_cap), pages).fetched <= page_cap,
        walked(start::<T>(page_cap), pages).fetched <= pages.len(),
        walked(start::<T>(page_cap), pages).page_cap == page_cap,
        walked(start::<T>(page_cap), pages).fetched == page_cap ==> walked(
            start::<T>(page_cap),
            pages,
        ).finished,
    decreases pages.len(),
{
    if pages.len() > 0 {
        lemma_walk_bounded::<T>(page_cap, pages.drop_last());
    }
}

/// Against an endpoint that always reports more pages, a crawl is not over
/// before it has fetched as many pages as its cap allows; then it is over,
/// and holds the nodes of exactly these pages, in order.
pub proof fn lemma_walk_stops_at_cap<T>(page_cap: nat, pages: Seq<PageView<T>>)
    requires
        forall|i: int| 0 <= i < pages.len() ==> (#[trigger] pages[i]).has_more,
    ensures
        pages.len() < page_cap ==> !walked(start::<T>(page_cap), pages).finished,
        pages.len() <= page_cap ==> walked(start::<T>(page_cap), pages).fetched == pages.len()
            && walked(start::<T>(page_cap), pages).items == all_nodes(pages),
        pages.len() >= page_cap ==> walked(start::<T>(page_cap), pages) == walked(
            start::<T>(page_cap),
            pages.take(page_cap as int),
        ) && walked(start::<T>(page_cap), pages).finished && walked(
            start::<T>(page_cap),
            pages,
        ).items == all_nodes(pages.take(page_cap as int)),
    decreases pages.len(),
{
    if pages.len() == 0 {
        assert(pages.take(0) == pages);
    } else {
        let init = pages.drop_last();
        lemma_walk_stops_at_cap::<T>(page_cap, init);
        lemma_walk_bounded::<T>(page_cap, init);
        if pages.len() > page_cap {
            assert(init.take(page_cap as int) == pages.take(page_cap as int));
        } else if pages.len() == page_cap {
            assert(pages.take(page_cap as int) == pages);
        }
    }
}

} // verus!
