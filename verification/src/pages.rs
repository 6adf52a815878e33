//! The two views of the board: the index, which lists a page of threads with
//! a preview of their replies, and the thread view, which shows one thread
//! whole.

use crate::model::{thread_of, thread_under, views, Post, PostView, Thread, ThreadView};
use crate::paging::{clamped_page, offset_of, page_count, preview, preview_start, window, PAGE_SIZE};
use crate::render::{
    base_header, header_markup, pagination_markup, post_markup, render_pagination, render_post,
};
use crate::store::{in_thread, index_order, slice_of, Board};
use crate::text::{escaped, push_escaped, push_signed_decimal, signed_decimal};
use vstd::prelude::*;
use vstd::string::StringExecFns;

verus! {

/// Opens a thread on a page.
pub const THREAD_OPEN: &'static str = "<div class=\"thread\">";

/// Closes a thread on a page.
pub const THREAD_CLOSE: &'static str = "</div><hr>";

/// Closes a page.
pub const PAGE_CLOSE: &'static str = "</body></html>";

/// The whole page shown for a thread that does not exist.
pub const NOT_FOUND_PAGE: &'static str =
    "<html><body>Thread not found. <a href=\"/\">Return to board</a></body></html>";

/// The address of the index.
pub const INDEX_PATH: &'static str = "/";

/// The start of the address of a thread.
pub const THREAD_PATH: &'static str = "/thread/";

/// The address of the thread numbered `thread_id`.
pub open spec fn thread_path(thread_id: int) -> Seq<char> {
    THREAD_PATH@ + signed_decimal(thread_id)
}

/// The banner that tells why the last submission was turned down, with a
/// link back to the page at `retry`. The reason is escaped.
pub open spec fn banner_markup(error: Option<Seq<char>>, retry: Seq<char>) -> Seq<char> {
    match error {
        Some(reason) => "<div class=\"banner\" style=\"background-color: #E04000; color: white;\">Error: "@
            + escaped(reason) + " <a href=\""@ + retry
            + "\" style=\"color: white;\">Try again</a></div><hr>"@,
        None => Seq::empty(),
    }
}

/// The markup of replies: each followed by a line break.
pub open spec fn replies_markup(replies: Seq<PostView>) -> Seq<char>
    decreases replies.len(),
{
    if replies.len() == 0 {
        Seq::empty()
    } else {
        replies_markup(replies.drop_last()) + post_markup(replies.last(), false, None) + "<br>"@
    }
}

/// A thread as the index shows it: its first post with the number of all its
/// replies, then the last three replies, or all where there are no more.
pub open spec fn preview_markup(thread: ThreadView) -> Seq<char> {
    THREAD_OPEN@ + post_markup(thread.op, true, Some(thread.replies.len())) + replies_markup(
        preview(thread.replies),
    ) + THREAD_CLOSE@
}

/// The threads of an index page, one after the other.
pub open spec fn previews_markup(threads: Seq<ThreadView>) -> Seq<char>
    decreases threads.len(),
{
    if threads.len() == 0 {
        Seq::empty()
    } else {
        previews_markup(threads.drop_last()) + preview_markup(threads.last())
    }
}

/// A page of the index: the header with the form for new threads, the banner
/// if a submission was turned down, the threads, the navigation.
pub open spec fn index_markup(
    threads: Seq<ThreadView>,
    page: nat,
    total_pages: nat,
    error: Option<Seq<char>>,
) -> Seq<char> {
    header_markup(INDEX_PATH@, false) + banner_markup(error, INDEX_PATH@) + previews_markup(
        threads,
    ) + pagination_markup(page, total_pages) + PAGE_CLOSE@
}

/// A thread as its own page shows it: the header with the reply form, the
/// banner if a reply was turned down, the first post with the number of
/// replies, and every reply.
pub open spec fn thread_markup(thread: ThreadView, error: Option<Seq<char>>) -> Seq<char> {
    header_markup(thread_path(thread.op.id), true) + banner_markup(
        error,
        thread_path(thread.op.id),
    ) + THREAD_OPEN@ + post_markup(thread.op, true, Some(thread.replies.len())) + replies_markup(
        thread.replies,
    ) + THREAD_CLOSE@ + PAGE_CLOSE@
}

/// The page for a thread that may not exist.
pub open spec fn thread_page_markup(thread: Option<ThreadView>, error: Option<Seq<char>>) -> Seq<
    char,
> {
    match thread {
        Some(t) => thread_markup(t, error),
        None => NOT_FOUND_PAGE@,
    }
}

/// What a sequence of threads holds, as mathematical values.
pub open spec fn thread_views(threads: Seq<Thread>) -> Seq<ThreadView> {
    Seq::new(threads.len(), |i: int| threads[i]@)
}

/// The text that an optional string slice holds.
pub open spec fn opt_str(o: Option<&str>) -> Option<Seq<char>> {
    match o {
        Some(s) => Some(s@),
        None => None,
    }
}

fn push_banner(out: &mut String, error: Option<&str>, retry: &str)
    ensures
        final(out)@ == old(out)@ + banner_markup(opt_str(error), retry@),
{
    match error {
        Some(reason) => {
            out.append(
                "<div class=\"banner\" style=\"background-color: #E04000; color: white;\">Error: ",
            );
            push_escaped(out, reason);
            out.append(" <a href=\"");
            out.append(retry);
            out.append("\" style=\"color: white;\">Try again</a></div><hr>");
        },
        None => {},
    }
    assert(out@ =~= old(out)@ + banner_markup(opt_str(error), retry@));
}

fn push_replies(out: &mut String, replies: &Vec<Post>, from: usize)
    requires
        from <= replies.len(),
    ensures
        final(out)@ == old(out)@ + replies_markup(views(replies@).skip(from as int)),
{
    let ghost shown = views(replies@).skip(from as int);
    let mut i: usize = from;
    assert(shown.take(0) =~= Seq::<PostView>::empty());
    assert(out@ =~= old(out)@ + replies_markup(shown.take(0)));
    while i < replies.len()
        invariant
            from <= i <= replies.len(),
            shown == views(replies@).skip(from as int),
            out@ == old(out)@ + replies_markup(shown.take(i - from)),
        decreases replies.len() - i,
    {
        render_post(out, &replies[i], false, None);
        out.append("<br>");
        proof {
            let upto = shown.take(i - from + 1);
            assert(upto.drop_last() =~= shown.take(i - from));
            assert(upto.last() == replies@[i as int]@);
            assert(out@ =~= old(out)@ + replies_markup(upto));
        }
        i += 1;
    }
    assert(shown.take(shown.len() as int) =~= shown);
}

fn push_preview(out: &mut String, thread: &Thread)
    ensures
        final(out)@ == old(out)@ + preview_markup(thread@),
{
    let n = thread.replies.len();
    out.append(THREAD_OPEN);
    render_post(out, &thread.op, true, Some(n));
    push_replies(out, &thread.replies, preview_start(n));
    out.append(THREAD_CLOSE);
    assert(out@ =~= old(out)@ + preview_markup(thread@));
}

fn push_previews(out: &mut String, threads: &Vec<Thread>)
    ensures
        final(out)@ == old(out)@ + previews_markup(thread_views(threads@)),
{
    let ghost all = thread_views(threads@);
    let mut i: usize = 0;
    assert(all.take(0) =~= Seq::<ThreadView>::empty());
    assert(out@ =~= old(out)@ + previews_markup(all.take(0)));
    while i < threads.len()
        invariant
            i <= threads.len(),
            all == thread_views(threads@),
            out@ == old(out)@ + previews_markup(all.take(i as int)),
        decreases threads.len() - i,
    {
        push_preview(out, &threads[i]);
        proof {
            let upto = all.take(i + 1);
            assert(upto.drop_last() =~= all.take(i as int));
            assert(upto.last() == threads@[i as int]@);
            assert(out@ =~= old(out)@ + previews_markup(upto));
        }
        i += 1;
    }
    assert(all.take(all.len() as int) =~= all);
}

/// Renders a page of the index from the threads it lists, the number of the
/// page, the number of pages, and the reason of a rejected submission if
/// there was one.
pub fn render_index(threads: &Vec<Thread>, page: u64, total_pages: u64, error: Option<&str>) -> (html:
    String)
    ensures
        html@ == index_markup(
            thread_views(threads@),
            page as nat,
            total_pages as nat,
            opt_str(error),
        ),
{
    let mut html = base_header(INDEX_PATH, false);
    push_banner(&mut html, error, INDEX_PATH);
    push_previews(&mut html, threads);
    let nav = render_pagination(page, total_pages);
    html.append(nav.as_str());
    html.append(PAGE_CLOSE);
    assert(html@ =~= index_markup(
        thread_views(threads@),
        page as nat,
        total_pages as nat,
        opt_str(error),
    ));
    html
}

/// The address of the thread numbered `thread_id`.
pub fn thread_address(thread_id: i64) -> (path: String)
    ensures
        path@ == thread_path(thread_id as int),
{
    let mut path = THREAD_PATH.to_owned();
    push_signed_decimal(&mut path, thread_id);
    path
}

fn render_found(thread: &Thread, error: Option<&str>) -> (html: String)
    ensures
        html@ == thread_markup(thread@, opt_str(error)),
{
    let action = thread_address(thread.op.id);
    let mut html = base_header(action.as_str(), true);
    push_banner(&mut html, error, action.as_str());
    html.append(THREAD_OPEN);
    render_post(&mut html, &thread.op, true, Some(thread.replies.len()));
    push_replies(&mut html, &thread.replies, 0);
    html.append(THREAD_CLOSE);
    html.append(PAGE_CLOSE);
    assert(views(thread.replies@).skip(0) =~= views(thread.replies@));
    assert(html@ =~= thread_markup(thread@, opt_str(error)));
    html
}

/// Renders the page of a thread, or the page that says there is no such
/// thread.
pub fn render_thread(thread: &Option<Thread>, error: Option<&str>) -> (html: String)
    ensures
        html@ == thread_page_markup(crate::model::opt_thread_view(*thread), opt_str(error)),
{
    match thread {
        Some(t) => render_found(t, error),
        None => NOT_FOUND_PAGE.to_owned(),
    }
}

/// The threads that start with the posts `starts`, each with its replies
/// among `posts`.
pub open spec fn threads_under(starts: Seq<PostView>, posts: Seq<PostView>) -> Seq<ThreadView> {
    Seq::new(starts.len(), |i: int| thread_under(starts[i], in_thread(posts, starts[i].id)))
}

/// The threads that a page of the index lists: those at the page's place in
/// the order of the index, [`PAGE_SIZE`] at most.
pub open spec fn page_threads(posts: Seq<PostView>, page: nat) -> Seq<ThreadView> {
    threads_under(slice_of(index_order(posts), offset_of(page), PAGE_SIZE as nat), posts)
}

/// The page of the index that a request for page `requested` shows.
pub open spec fn shown_page(posts: Seq<PostView>, requested: nat) -> nat {
    clamped_page(requested, page_count(crate::store::count_starts(posts)))
}

/// The index of a board as a request for page `requested` sees it.
pub open spec fn board_index_markup(posts: Seq<PostView>, requested: nat, error: Option<Seq<char>>) -> Seq<
    char,
> {
    let page = shown_page(posts, requested);
    index_markup(
        page_threads(posts, page),
        page,
        page_count(crate::store::count_starts(posts)),
        error,
    )
}

/// The page of thread `thread_id` of a board.
pub open spec fn board_thread_markup(posts: Seq<PostView>, thread_id: int, error: Option<Seq<char>>) -> Seq<
    char,
> {
    thread_page_markup(thread_of(in_thread(posts, thread_id), thread_id), error)
}

/// A page of the index, ready to be rendered.
pub struct IndexPage {
    /// The threads that the page lists, each with all its replies.
    pub threads: Vec<Thread>,
    /// The number of the page.
    pub page: u64,
    /// The number of pages there are.
    pub total_pages: u64,
}

/// Collects the page of the index that a request for page `requested`
/// shows: the nearest page that exists, with the threads at its place in the
/// order of the index.
pub fn index_threads(board: &Board, requested: u64) -> (shown: IndexPage)
    ensures
        shown.total_pages == page_count(crate::store::count_starts(board@.posts)),
        shown.page == shown_page(board@.posts, requested as nat),
        thread_views(shown.threads@) == page_threads(board@.posts, shown.page as nat),
{
    let w = window(board.count_thread_starts(), requested);
    let starts = board.list_thread_starts(PAGE_SIZE, w.offset);
    let ghost listed = views(starts@);
    let mut threads: Vec<Thread> = Vec::new();
    for op in iter: starts
        invariant
            views(iter.seq()) == listed,
            thread_views(threads@) == threads_under(listed.take(iter.index()), board@.posts),
    {
        let ghost k = iter.index();
        let ghost done = thread_views(threads@);
        assert(listed[k] == op@);
        let posts = board.list_thread(op.id);
        threads.push(Thread::under(op, posts));
        assert(thread_views(threads@) =~= done.push(
            thread_under(listed[k], in_thread(board@.posts, listed[k].id)),
        ));
        assert(thread_views(threads@) =~= threads_under(listed.take(k + 1), board@.posts));
    }
    assert(listed.take(listed.len() as int) =~= listed);
    IndexPage { threads, page: w.page, total_pages: w.total_pages }
}

/// Renders the index of a board for a request of page `requested`.
pub fn board_index(board: &Board, requested: u64, error: Option<&str>) -> (html: String)
    ensures
        html@ == board_index_markup(board@.posts, requested as nat, opt_str(error)),
{
    let shown = index_threads(board, requested);
    render_index(&shown.threads, shown.page, shown.total_pages, error)
}

/// Renders the page of thread `thread_id` of a board, or the page that says
/// there is no such thread.
pub fn board_thread(board: &Board, thread_id: i64, error: Option<&str>) -> (html: String)
    ensures
        html@ == board_thread_markup(board@.posts, thread_id as int, opt_str(error)),
{
    let posts = board.list_thread(thread_id);
    let thread = Thread::from_posts(posts, thread_id);
    render_thread(&thread, error)
}

} // verus!
