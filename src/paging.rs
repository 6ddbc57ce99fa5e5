//! Forward-only cursor pagination for wide viewports: the current page and
//! the stack of pages visited before it, encoded into shareable URL query
//! parameters (`from`, `prev`, `limit`).
use vstd::prelude::*;

verus! {

/// A cursor as seen in contracts: `None` stands for the first page.
pub type CursorView = Option<Seq<char>>;

/// A page position as seen in contracts: `(offset, cursor)`.
pub type PageKeyView = (usize, CursorView);

pub open spec fn cursor_view(c: Option<String>) -> CursorView {
    match c {
        Some(s) => Some(s@),
        None => None,
    }
}

/// The position of the first page: offset 0 and no cursor.
pub open spec fn first_page() -> PageKeyView {
    (0usize, None)
}

/// Page size used when the URL names none, or one that cannot be read.
pub const DEFAULT_LIMIT: usize = 10;

/// A page position: the offset of its first item and the opaque cursor the
/// server gave for it (`None` on the first page).
#[derive(Debug, Clone, PartialEq, Eq)]
pub struct PageKey {
    pub offset: usize,
    pub cursor: Option<String>,
}

impl View for PageKey {
    type V = PageKeyView;

    open spec fn view(&self) -> PageKeyView {
        (self.offset, cursor_view(self.cursor))
    }
}

pub open spec fn keys_view(keys: Seq<PageKey>) -> Seq<PageKeyView> {
    keys.map_values(|k: PageKey| k@)
}

/// A copy of a cursor.
pub fn copy_cursor(c: &Option<String>) -> (r: Option<String>)
    ensures
        r == *c,
{
    match c {
        Some(s) => Some(s.clone()),
        None => None,
    }
}

impl PageKey {
    /// The position of the first page.
    pub fn first() -> (r: PageKey)
        ensures
            r@ == first_page(),
    {
        PageKey { offset: 0, cursor: None }
    }

    pub fn copy(&self) -> (r: PageKey)
        ensures
            r == *self,
    {
        PageKey { offset: self.offset, cursor: copy_cursor(&self.cursor) }
    }

    /// Whether this is the first page's position.
    pub fn is_first(&self) -> (r: bool)
        ensures
            r == (self@ == first_page()),
    {
        self.offset == 0 && self.cursor.is_none()
    }
}

/// A copy of a list of page positions.
pub fn copy_keys(keys: &Vec<PageKey>) -> (r: Vec<PageKey>)
    ensures
        r@ == keys@,
{
    let mut r: Vec<PageKey> = Vec::new();
    let mut i: usize = 0;
    while i < keys.len()
        invariant
            i <= keys.len(),
            r@.len() == i,
            forall|j: int| 0 <= j < i ==> #[trigger] r@[j] == keys@[j],
        decreases keys.len() - i,
    {
        r.push(keys[i].copy());
        i = i + 1;
    }
    assert(r@ =~= keys@);
    r
}


/// The navigation state as seen in contracts: the current position and the
/// stack of positions visited before it, oldest first.
pub type NavView = (PageKeyView, Seq<PageKeyView>);

/// The state before any navigation: the first page and an empty stack.
pub open spec fn initial_nav() -> NavView {
    (first_page(), Seq::empty())
}

/// "Next": the current position goes onto the stack and the page `limit`
/// items further, reached with the server's cursor `next_cursor`, becomes
/// current.
pub open spec fn next_spec(s: NavView, limit: usize, next_cursor: CursorView) -> NavView {
    (((s.0.0 + limit) as usize, next_cursor), s.1.push(s.0))
}

/// "Previous": the last position of the stack becomes current; with an empty
/// stack the first page does.
pub open spec fn previous_spec(s: NavView) -> NavView {
    if s.1.len() == 0 {
        initial_nav()
    } else {
        (s.1.last(), s.1.drop_last())
    }
}

/// The state after one "Next" per cursor of `cursors`, in order.
pub open spec fn nexts(s: NavView, limit: usize, cursors: Seq<CursorView>) -> NavView
    decreases cursors.len(),
{
    if cursors.len() == 0 {
        s
    } else {
        next_spec(nexts(s, limit, cursors.drop_last()), limit, cursors.last())
    }
}

/// The state after `n` "Previous" steps.
pub open spec fn previouses(s: NavView, n: nat) -> NavView
    decreases n,
{
    if n == 0 {
        s
    } else {
        previouses(previous_spec(s), (n - 1) as nat)
    }
}

/// "Previous" undoes "Next".
pub proof fn lemma_previous_undoes_next(s: NavView, limit: usize, next_cursor: CursorView)
    ensures
        previous_spec(next_spec(s, limit, next_cursor)) == s,
{
    assert(s.1.push(s.0).drop_last() =~= s.1);
}

/// Any number of "Next" steps followed by as many "Previous" steps gives back
/// the state they started from; from the initial state, the first page with
/// an empty stack.
pub proof fn lemma_navigation_restores(s: NavView, limit: usize, cursors: Seq<CursorView>)
    ensures
        previouses(nexts(s, limit, cursors), cursors.len()) == s,
    decreases cursors.len(),
{
    if cursors.len() > 0 {
        let before = nexts(s, limit, cursors.drop_last());
        lemma_previous_undoes_next(before, limit, cursors.last());
        lemma_navigation_restores(s, limit, cursors.drop_last());
    }
}

/// Pagination state for wide viewports, carried in the URL.
#[derive(Debug)]
pub struct PageCursorState {
    pub current: PageKey,
    pub prev: Vec<PageKey>,
}

impl View for PageCursorState {
    type V = NavView;

    open spec fn view(&self) -> NavView {
        (self.current@, keys_view(self.prev@))
    }
}

impl PageCursorState {
    /// The first page with an empty stack.
    pub fn initial() -> (r: PageCursorState)
        ensures
            r@ == initial_nav(),
    {
        let r = PageCursorState { current: PageKey::first(), prev: Vec::new() };
        assert(keys_view(r.prev@) =~= Seq::empty());
        r
    }

    /// Whether "Previous" leads anywhere: the stack is not empty.
    pub fn can_go_back(&self) -> (r: bool)
        ensures
            r == (self@.1.len() > 0),
    {
        self.prev.len() > 0
    }

    /// Whether "Next" is offered: the last response gave a cursor and no
    /// page is loading.
    pub fn can_go_forward(next_cursor: &Option<String>, loading: bool) -> (r: bool)
        ensures
            r == (next_cursor is Some && !loading),
    {
        next_cursor.is_some() && !loading
    }

    /// The state after "Next", given the page size and the cursor that the
    /// last response named for the following page.
    pub fn next(&self, limit: usize, next_cursor: Option<String>) -> (r: PageCursorState)
        requires
            self.current.offset + limit <= usize::MAX,
        ensures
            r@ == next_spec(self@, limit, cursor_view(next_cursor)),
            r.current.offset == self.current.offset + limit,
            r.prev@.len() == self.prev@.len() + 1,
    {
        let mut prev = copy_keys(&self.prev);
        prev.push(self.current.copy());
        let r = PageCursorState {
            current: PageKey { offset: self.current.offset + limit, cursor: next_cursor },
            prev,
        };
        assert(keys_view(r.prev@) =~= keys_view(self.prev@).push(self.current@));
        r
    }

    /// The state after "Previous".
    pub fn previous(&self) -> (r: PageCursorState)
        ensures
            r@ == previous_spec(self@),
    {
        let mut prev = copy_keys(&self.prev);
        match prev.pop() {
            Some(k) => {
                assert(keys_view(prev@) =~= keys_view(self.prev@).drop_last());
                PageCursorState { current: k, prev }
            },
            None => PageCursorState::initial(),
        }
    }
}

/// The page size for a viewport `width` pixels wide, or `None` for the
/// default one.
pub fn limit_for_width(width: u32) -> (r: Option<usize>)
    ensures
        width >= 2560 ==> r == Some(40usize),
        1920 <= width < 2560 ==> r == Some(30usize),
        1536 <= width < 1920 ==> r == Some(20usize),
        width < 1536 ==> r is None,
{
    if width >= 2560 {
        Some(40)
    } else if width >= 1920 {
        Some(30)
    } else if width >= 1536 {
        Some(20)
    } else {
        None
    }
}

/// Narrow viewports scroll through pages instead of navigating between them.
pub const NARROW_WIDTH: u32 = 640;

/// Whether a viewport `width` pixels wide scrolls through pages.
pub fn uses_infinite_scroll(width: u32) -> (r: bool)
    ensures
        r == (width < NARROW_WIDTH),
{
    width < NARROW_WIDTH
}

} // verus!
