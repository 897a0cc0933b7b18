//! Decisions of the continuous crawl: when to read another feed page, which
//! page to read, and the image work items a page yields.

use vstd::prelude::*;
use crate::imgur_interface::{Post, extension, extension_of};

verus! {

/// A new page is read while fewer posts than this wait to be stored.
pub const BACKLOG_LOW_WATER: i64 = 50;

/// The page counter goes back to the first page after this long, in
/// milliseconds (twelve hours).
pub const PAGE_RESET_MS: u64 = 43_200_000;

/// Where the crawl stands in the feed.
#[derive(Debug, Clone, Copy, PartialEq, Eq)]
pub struct PageCursor {
    pub page: u32,
    /// When the counter was last reset, in milliseconds since the epoch.
    pub reset_at_ms: u64,
}

/// The cursor for the page to read at time `now_ms`: back to the first page
/// once twelve hours have passed since the last reset, else the next page.
pub open spec fn next_cursor_spec(c: PageCursor, now_ms: u64) -> PageCursor {
    if now_ms >= c.reset_at_ms && now_ms - c.reset_at_ms >= PAGE_RESET_MS {
        PageCursor { page: 1, reset_at_ms: now_ms }
    } else if c.page < u32::MAX {
        PageCursor { page: (c.page + 1) as u32, reset_at_ms: c.reset_at_ms }
    } else {
        PageCursor { page: 1, reset_at_ms: now_ms }
    }
}

impl PageCursor {
    /// A crawl that starts at time `now_ms`, before the first page.
    pub fn new(now_ms: u64) -> (r: PageCursor)
        ensures
            r.page == 0,
            r.reset_at_ms == now_ms,
    {
        PageCursor { page: 0, reset_at_ms: now_ms }
    }

    /// The cursor for the page to read at time `now_ms`. A counter that
    /// cannot grow any more starts over too.
    pub fn next(&self, now_ms: u64) -> (r: PageCursor)
        ensures
            r == next_cursor_spec(*self, now_ms),
    {
        if now_ms >= self.reset_at_ms && now_ms - self.reset_at_ms >= PAGE_RESET_MS {
            PageCursor { page: 1, reset_at_ms: now_ms }
        } else if self.page < u32::MAX {
            PageCursor { page: self.page + 1, reset_at_ms: self.reset_at_ms }
        } else {
            PageCursor { page: 1, reset_at_ms: now_ms }
        }
    }
}

/// One image to download in the crawl.
#[derive(Debug, Clone, PartialEq)]
pub struct WorkItem {
    pub id: String,
    pub parent_post_id: String,
    pub url: String,
    /// The part of the URL after its last dot.
    pub extension: String,
}

/// `item` stands for the image `(id, url)` of the post `parent`.
pub open spec fn is_item(item: WorkItem, parent: Seq<char>, id: Seq<char>, url: Seq<char>) -> bool {
    &&& item.id@ == id
    &&& item.parent_post_id@ == parent
    &&& item.url@ == url
    &&& item.extension@ == extension_of(url)
}

/// The work items of a post, as `(id, url)` pairs: one per image of an
/// album, the post itself otherwise.
pub open spec fn post_items(p: Post) -> Seq<(Seq<char>, Seq<char>)> {
    if p.is_album {
        p.images@.map_values(|i: crate::imgur_interface::Image| (i.id@, i.link@))
    } else {
        seq![(p.id@, p.link@)]
    }
}

/// The work items of the posts of a page, in order.
pub open spec fn page_items(posts: Seq<Post>) -> Seq<(Seq<char>, Seq<char>)>
    decreases posts.len(),
{
    if posts.len() == 0 {
        Seq::empty()
    } else {
        page_items(posts.drop_last()) + post_items(posts.last())
    }
}

/// The parent post id of each work item of a page, in order.
pub open spec fn page_parents(posts: Seq<Post>) -> Seq<Seq<char>>
    decreases posts.len(),
{
    if posts.len() == 0 {
        Seq::empty()
    } else {
        page_parents(posts.drop_last()) + Seq::new(
            post_items(posts.last()).len(),
            |_i: int| posts.last().id@,
        )
    }
}

fn work_item(parent: &String, id: &String, url: &String) -> (r: WorkItem)
    ensures
        is_item(r, parent@, id@, url@),
{
    WorkItem {
        id: id.clone(),
        parent_post_id: parent.clone(),
        url: url.clone(),
        extension: extension(url.as_str()),
    }
}

/// Flattens the posts of a feed page into image work items: one per image
/// for an album, one for the post itself otherwise.
pub fn work_items(posts: &Vec<Post>) -> (r: Vec<WorkItem>)
    ensures
        r@.len() == page_items(posts@).len(),
        page_parents(posts@).len() == page_items(posts@).len(),
        forall|k: int|
            0 <= k < r@.len() ==> is_item(
                #[trigger] r@[k],
                page_parents(posts@)[k],
                page_items(posts@)[k].0,
                page_items(posts@)[k].1,
            ),
{
    let mut out: Vec<WorkItem> = Vec::new();
    let mut p: usize = 0;
    while p < posts.len()
        invariant
            p <= posts@.len(),
            out@.len() == page_items(posts@.take(p as int)).len(),
            page_parents(posts@.take(p as int)).len() == out@.len(),
            forall|k: int|
                0 <= k < out@.len() ==> is_item(
                    #[trigger] out@[k],
                    page_parents(posts@.take(p as int))[k],
                    page_items(posts@.take(p as int))[k].0,
                    page_items(posts@.take(p as int))[k].1,
                ),
        decreases posts@.len() - p,
    {
        let post = &posts[p];
        let ghost before = out@;
        let ghost prev = posts@.take(p as int);
        let ghost next = posts@.take(p + 1);
        assert(next.drop_last() =~= prev);
        assert(next.last() == *post);
        assert(forall|k: int|
            0 <= k < before.len() ==> is_item(
                #[trigger] before[k],
                page_parents(prev)[k],
                page_items(prev)[k].0,
                page_items(prev)[k].1,
            ));
        if post.is_album {
            let mut i: usize = 0;
            while i < post.images.len()
                invariant
                    i <= post.images@.len(),
                    post.is_album,
                    out@.len() == before.len() + i,
                    forall|k: int| 0 <= k < before.len() ==> out@[k] == before[k],
                    forall|k: int|
                        0 <= k < i ==> is_item(
                            #[trigger] out@[before.len() + k],
                            post.id@,
                            post.images@[k].id@,
                            post.images@[k].link@,
                        ),
                decreases post.images@.len() - i,
            {
                out.push(work_item(&post.id, &post.images[i].id, &post.images[i].link));
                i += 1;
            }
        } else {
            out.push(work_item(&post.id, &post.id, &post.link));
        }
        assert(page_items(next) == page_items(prev) + post_items(*post));
        assert(page_parents(next) == page_parents(prev) + Seq::new(
            post_items(*post).len(),
            |_i: int| post.id@,
        ));
        assert(out@.len() == before.len() + post_items(*post).len());
        assert forall|k: int| 0 <= k < out@.len() implies is_item(
            #[trigger] out@[k],
            page_parents(next)[k],
            page_items(next)[k].0,
            page_items(next)[k].1,
        ) by {
            if k < before.len() {
                assert(out@[k] == before[k]);
                assert(page_items(next)[k] == page_items(prev)[k]);
                assert(page_parents(next)[k] == page_parents(prev)[k]);
            } else {
                let m = k - before.len();
                assert(page_items(next)[k] == post_items(*post)[m]);
                assert(page_parents(next)[k] == post.id@);
                if post.is_album {
                    assert(post_items(*post)[m] == (post.images@[m].id@, post.images@[m].link@));
                    assert(is_item(
                        out@[before.len() + m],
                        post.id@,
                        post.images@[m].id@,
                        post.images@[m].link@,
                    ));
                } else {
                    assert(m == 0);
                    assert(post_items(*post)[0] == (post.id@, post.link@));
                }
            }
        }
        p += 1;
    }
    assert(posts@.take(p as int) =~= posts@);
    out
}

/// The items whose download succeeded (`ok[k]` for item `k`), in order.
pub open spec fn kept_items(items: Seq<WorkItem>, ok: Seq<bool>) -> Seq<WorkItem>
    decreases items.len(),
{
    if items.len() == 0 || ok.len() < items.len() {
        Seq::empty()
    } else {
        let rest = kept_items(items.drop_last(), ok.take(items.len() - 1));
        if ok[items.len() - 1] {
            rest.push(items.last())
        } else {
            rest
        }
    }
}

/// Drops the work items whose download failed for good; the others are
/// stored, in order.
pub fn downloaded_items(items: Vec<WorkItem>, ok: &Vec<bool>) -> (r: Vec<WorkItem>)
    requires
        ok@.len() == items@.len(),
    ensures
        r@ == kept_items(items@, ok@),
{
    let ghost all = items@;
    let mut out: Vec<WorkItem> = Vec::new();
    let mut items = items;
    let mut rev: Vec<WorkItem> = Vec::new();
    let mut rev_ok: Vec<bool> = Vec::new();
    // Taken from the back, then put back in order.
    while items.len() > 0
        invariant
            items@ == all.take(items@.len() as int),
            ok@.len() == all.len(),
            rev@.len() == rev_ok@.len(),
            rev@.len() + items@.len() == all.len(),
            forall|j: int| 0 <= j < rev@.len() ==> #[trigger] rev@[j] == all[all.len() - 1 - j],
            forall|j: int|
                0 <= j < rev_ok@.len() ==> #[trigger] rev_ok@[j] == ok@[all.len() - 1 - j],
        decreases items@.len(),
    {
        let k = items.len() - 1;
        match items.pop() {
            Some(item) => {
                rev.push(item);
                rev_ok.push(ok[k]);
            },
            None => {},
        }
        assert(items@ =~= all.take(k as int));
    }
    while rev.len() > 0
        invariant
            rev@.len() == rev_ok@.len(),
            ok@.len() == all.len(),
            rev@.len() <= all.len(),
            forall|j: int| 0 <= j < rev@.len() ==> #[trigger] rev@[j] == all[all.len() - 1 - j],
            forall|j: int|
                0 <= j < rev_ok@.len() ==> #[trigger] rev_ok@[j] == ok@[all.len() - 1 - j],
            out@ == kept_items(
                all.take(all.len() - rev@.len()),
                ok@.take(all.len() - rev@.len()),
            ),
        decreases rev@.len(),
    {
        let ghost done = all.len() - rev@.len();
        let keep = rev_ok[rev_ok.len() - 1];
        rev_ok.pop();
        match rev.pop() {
            Some(item) => {
                proof {
                    let t = all.take(done + 1);
                    let o = ok@.take(done + 1);
                    assert(t.drop_last() =~= all.take(done));
                    assert(o.take(done) =~= ok@.take(done));
                    assert(t.last() == item);
                    assert(o[done] == keep);
                }
                if keep {
                    out.push(item);
                }
            },
            None => {},
        }
    }
    assert(all.take(all.len() as int) =~= all);
    assert(ok@.take(all.len() as int) =~= ok@);
    out
}

/// The crawl's backlog counters as the store holds them. They are only
/// changed by the store's atomic increment, never written back from here.
#[derive(Debug, Clone, Copy, PartialEq, Eq)]
pub struct BacklogCounters {
    pub viewed_posts: i64,
    pub remaining_posts: i64,
    pub to_store: i64,
}

impl BacklogCounters {
    /// Reads the next feed page when the backlog of posts still to be
    /// processed, `remaining_posts - to_store`, is below the low-water mark.
    pub fn needs_page(&self) -> (r: bool)
        ensures
            r == (self.remaining_posts - self.to_store < BACKLOG_LOW_WATER),
    {
        (self.remaining_posts as i128) - (self.to_store as i128) < (BACKLOG_LOW_WATER as i128)
    }
}

} // verus!
