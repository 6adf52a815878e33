//! Rendering of posts into markup.
//!
//! Every function appends to, or returns, a string whose characters are given
//! by a specification function over the views of its arguments: the same
//! input always yields the same markup.

use crate::model::{Post, PostView, ANONYMOUS};
use crate::quote::{link_quotes, linked};
use crate::text::{
    decimal, escaped, lines, push_decimal, push_escaped, push_signed_decimal, signed_decimal,
    split_lines, starts_with_char, texts,
};
use vstd::prelude::*;
use vstd::string::StringExecFns;

verus! {

/// Opens the span around a quoted line.
pub const QUOTE_OPEN: &'static str = "<span class=\"quote\">";

/// Closes the span around a quoted line and ends the line.
pub const QUOTE_CLOSE: &'static str = "</span><br>";

/// Ends a line.
pub const LINE_BREAK: &'static str = "<br>";

/// A line is quoted when its first character, as the poster typed it, is `>`.
pub open spec fn is_quoted(line: Seq<char>) -> bool {
    line.len() > 0 && line.first() == '>'
}

/// The markup of one line of a message: the line escaped, then its quote
/// references linked, then wrapped in the quote span if the line is quoted,
/// and a line break at the end.
pub open spec fn line_markup(line: Seq<char>) -> Seq<char> {
    let body = linked(escaped(line));
    if is_quoted(line) {
        QUOTE_OPEN@ + body + QUOTE_CLOSE@
    } else {
        body + LINE_BREAK@
    }
}

/// The markup of a sequence of lines, one after the other.
pub open spec fn lines_markup(ls: Seq<Seq<char>>) -> Seq<char>
    decreases ls.len(),
{
    if ls.len() == 0 {
        Seq::empty()
    } else {
        lines_markup(ls.drop_last()) + line_markup(ls.last())
    }
}

/// The markup of a message: that of its lines.
pub open spec fn message_markup(message: Seq<char>) -> Seq<char> {
    lines_markup(lines(message))
}

/// Appends the markup of one line of a message.
pub fn push_line(out: &mut String, line: &str)
    ensures
        final(out)@ == old(out)@ + line_markup(line@),
{
    let safe = crate::text::escape(line);
    let body = link_quotes(safe.as_str());
    if starts_with_char(line, '>') {
        out.append(QUOTE_OPEN);
        out.append(body.as_str());
        out.append(QUOTE_CLOSE);
        assert(out@ =~= old(out)@ + line_markup(line@));
    } else {
        out.append(body.as_str());
        out.append(LINE_BREAK);
        assert(out@ =~= old(out)@ + line_markup(line@));
    }
}

/// Appends the markup of a message.
pub fn push_message(out: &mut String, message: &str)
    ensures
        final(out)@ == old(out)@ + message_markup(message@),
{
    let ls = split_lines(message);
    let mut i: usize = 0;
    assert(texts(ls@).take(0) =~= Seq::<Seq<char>>::empty());
    assert(out@ =~= old(out)@ + lines_markup(texts(ls@).take(0)));
    while i < ls.len()
        invariant
            i <= ls.len(),
            texts(ls@) == lines(message@),
            out@ == old(out)@ + lines_markup(texts(ls@).take(i as int)),
        decreases ls.len() - i,
    {
        push_line(out, ls[i].as_str());
        proof {
            let upto = texts(ls@).take(i + 1);
            assert(upto.drop_last() =~= texts(ls@).take(i as int));
            assert(upto.last() == ls@[i as int]@);
            assert(out@ =~= old(out)@ + lines_markup(upto));
        }
        i += 1;
    }
    assert(texts(ls@).take(ls.len() as int) =~= texts(ls@));
}

/// Renders a message: each line escaped, its quote references linked, quoted
/// lines set apart, and a line break after every line.
pub fn render_message(message: &str) -> (out: String)
    ensures
        out@ == message_markup(message@),
{
    let mut out = String::new();
    push_message(&mut out, message);
    out
}

/// The image link of a post, shown when the post has both a file and a
/// thumbnail and neither name is empty.
pub open spec fn attachment_markup(post: PostView) -> Seq<char> {
    if post.filename is Some && post.thumbname is Some && post.filename->0.len() > 0
        && post.thumbname->0.len() > 0 {
        "<span class=\"file\">\n    <a href=\"/uploads/"@ + post.filename->0
            + "\" target=\"_blank\">\n        <img src=\"/thumbs/"@ + post.thumbname->0
            + "\" class=\"post-image\">\n    </a>\n</span>"@
    } else {
        Seq::empty()
    }
}

/// The subject of a post, escaped, shown when there is one that is not empty.
pub open spec fn subject_markup(post: PostView) -> Seq<char> {
    if post.subject is Some && post.subject->0.len() > 0 {
        "<span class=\"subject\">"@ + escaped(post.subject->0) + "</span> "@
    } else {
        Seq::empty()
    }
}

/// The name under which a post is shown: its own, or [`ANONYMOUS`] where that
/// is empty.
pub open spec fn display_name(post: PostView) -> Seq<char> {
    if post.name.len() == 0 {
        ANONYMOUS@
    } else {
        post.name
    }
}

/// The note of how many replies a thread has.
pub open spec fn count_markup(reply_count: Option<nat>) -> Seq<char> {
    match reply_count {
        Some(n) => " ["@ + decimal(n) + "]"@,
        None => Seq::empty(),
    }
}

/// The link to a post's thread with the reply count, shown on the first post
/// of a thread only.
pub open spec fn reply_link_markup(post: PostView, is_op: bool, reply_count: Option<nat>) -> Seq<
    char,
> {
    if is_op {
        " <a href=\"/thread/"@ + signed_decimal(post.thread_id) + "\">Reply"@ + count_markup(
            reply_count,
        ) + "</a>"@
    } else {
        Seq::empty()
    }
}

/// The opening of a post: its anchor, which is its number, and its kind.
pub open spec fn post_open_markup(post: PostView, is_op: bool) -> Seq<char> {
    "<div id=\""@ + signed_decimal(post.id) + "\" class=\"post "@ + (if is_op {
        "op"@
    } else {
        "reply"@
    }) + "\">"@
}

/// The name of the poster, escaped.
pub open spec fn name_markup(post: PostView) -> Seq<char> {
    "<span class=\"name\">"@ + escaped(display_name(post)) + "</span>"@
}

/// The line that introduces a post: image, subject, name and, on the first
/// post of a thread, the link to the thread with the number of replies.
pub open spec fn intro_markup(post: PostView, is_op: bool, reply_count: Option<nat>) -> Seq<char> {
    "<div class=\"intro\">"@ + attachment_markup(post) + subject_markup(post) + name_markup(post)
        + reply_link_markup(post, is_op, reply_count) + "</div>"@
}

/// The message of a post in its frame.
pub open spec fn body_markup(post: PostView) -> Seq<char> {
    "<div class=\"body\">"@ + message_markup(post.message) + "</div>"@
}

/// The markup of one post: its opening, the line that introduces it, and its
/// message.
pub open spec fn post_markup(post: PostView, is_op: bool, reply_count: Option<nat>) -> Seq<char> {
    post_open_markup(post, is_op) + intro_markup(post, is_op, reply_count) + body_markup(post)
        + "</div>"@
}

/// A reply count as a mathematical value.
pub open spec fn count_view(reply_count: Option<usize>) -> Option<nat> {
    match reply_count {
        Some(n) => Some(n as nat),
        None => None,
    }
}

fn push_attachment(out: &mut String, post: &Post)
    ensures
        final(out)@ == old(out)@ + attachment_markup(post@),
{
    match (&post.filename, &post.thumbname) {
        (Some(file), Some(thumb)) => {
            if !file.as_str().is_empty() && !thumb.as_str().is_empty() {
                out.append("<span class=\"file\">\n    <a href=\"/uploads/");
                out.append(file.as_str());
                out.append("\" target=\"_blank\">\n        <img src=\"/thumbs/");
                out.append(thumb.as_str());
                out.append("\" class=\"post-image\">\n    </a>\n</span>");
            }
        },
        _ => {},
    }
    assert(out@ =~= old(out)@ + attachment_markup(post@));
}

fn push_subject(out: &mut String, post: &Post)
    ensures
        final(out)@ == old(out)@ + subject_markup(post@),
{
    match &post.subject {
        Some(subject) => {
            if !subject.as_str().is_empty() {
                out.append("<span class=\"subject\">");
                push_escaped(out, subject.as_str());
                out.append("</span> ");
            }
        },
        None => {},
    }
    assert(out@ =~= old(out)@ + subject_markup(post@));
}

fn push_reply_link(out: &mut String, post: &Post, is_op: bool, reply_count: Option<usize>)
    ensures
        final(out)@ == old(out)@ + reply_link_markup(post@, is_op, count_view(reply_count)),
{
    if is_op {
        out.append(" <a href=\"/thread/");
        push_signed_decimal(out, post.thread_id);
        out.append("\">Reply");
        match reply_count {
            Some(n) => {
                out.append(" [");
                push_decimal(out, n as u64);
                out.append("]");
            },
            None => {},
        }
        out.append("</a>");
    }
    assert(out@ =~= old(out)@ + reply_link_markup(post@, is_op, count_view(reply_count)));
}

fn push_post_open(out: &mut String, post: &Post, is_op: bool)
    ensures
        final(out)@ == old(out)@ + post_open_markup(post@, is_op),
{
    out.append("<div id=\"");
    push_signed_decimal(out, post.id);
    out.append("\" class=\"post ");
    if is_op {
        out.append("op");
    } else {
        out.append("reply");
    }
    out.append("\">");
    assert(out@ =~= old(out)@ + post_open_markup(post@, is_op));
}

fn push_name(out: &mut String, post: &Post)
    ensures
        final(out)@ == old(out)@ + name_markup(post@),
{
    out.append("<span class=\"name\">");
    if post.name.as_str().is_empty() {
        push_escaped(out, ANONYMOUS);
    } else {
        push_escaped(out, post.name.as_str());
    }
    out.append("</span>");
    assert(out@ =~= old(out)@ + name_markup(post@));
}

fn push_intro(out: &mut String, post: &Post, is_op: bool, reply_count: Option<usize>)
    ensures
        final(out)@ == old(out)@ + intro_markup(post@, is_op, count_view(reply_count)),
{
    out.append("<div class=\"intro\">");
    push_attachment(out, post);
    push_subject(out, post);
    push_name(out, post);
    push_reply_link(out, post, is_op, reply_count);
    out.append("</div>");
    assert(out@ =~= old(out)@ + intro_markup(post@, is_op, count_view(reply_count)));
}

fn push_body(out: &mut String, post: &Post)
    ensures
        final(out)@ == old(out)@ + body_markup(post@),
{
    out.append("<div class=\"body\">");
    push_message(out, post.message.as_str());
    out.append("</div>");
    assert(out@ =~= old(out)@ + body_markup(post@));
}

/// Appends the markup of `post` to `html`. The first post of a thread is
/// rendered with `is_op` set and may carry the number of replies.
pub fn render_post(html: &mut String, post: &Post, is_op: bool, reply_count: Option<usize>)
    ensures
        final(html)@ == old(html)@ + post_markup(post@, is_op, count_view(reply_count)),
{
    push_post_open(html, post, is_op);
    push_intro(html, post, is_op, reply_count);
    push_body(html, post);
    html.append("</div>");
    assert(html@ =~= old(html)@ + post_markup(post@, is_op, count_view(reply_count)));
}

/// The start of every page: document head and board title.
pub const PAGE_HEAD: &'static str =
    "<!DOCTYPE html>\n<html>\n<head>\n    <meta charset=\"utf-8\">\n    <title>/chess/ - Chess</title>\n    <link rel=\"stylesheet\" href=\"/static/default.css\">\n</head>\n<body>\n<header>\n    <h1>/chess/ - Chess</h1>\n    <div class=\"subtitle\">General chess discussion, puzzles, and diagrams</div>\n</header>\n<hr>";

/// The banner of a page that shows one thread.
pub const REPLY_BANNER: &'static str =
    "<div class=\"banner\">Reply mode <a href=\"/\">Return to the main board</a></div>";

/// Opens the posting form up to the address it submits to.
pub const FORM_OPEN: &'static str = "<form method=\"post\" action=\"";

/// The posting form from its address up to and with the name field.
pub const FORM_NAME: &'static str =
    "\" enctype=\"multipart/form-data\">\n<table class=\"post-table\">\n<tbody>\n    <tr><th>Name</th><td><input type=\"text\" name=\"name\" size=\"25\" maxlength=\"35\" autocomplete=\"off\" placeholder=\"Anonymous\"></td></tr>\n";

/// The subject field of the posting form.
pub const FORM_SUBJECT: &'static str =
    "<tr><th>Subject</th><td><input type=\"text\" name=\"subject\" size=\"25\" maxlength=\"100\" autocomplete=\"off\"></td></tr>";

/// The message field of the posting form.
pub const FORM_COMMENT: &'static str =
    "<tr><th>Comment</th><td><textarea name=\"message\" rows=\"5\" cols=\"35\"></textarea></td></tr>";

/// The file field of the posting form.
pub const FORM_FILE: &'static str =
    "<tr><th>File</th><td><input type=\"file\" name=\"file\" id=\"upload_file\"></td></tr>";

/// The submit button and the end of the posting form.
pub const FORM_CLOSE: &'static str =
    "<tr><th></th><td><input accesskey=\"s\" type=\"submit\" name=\"post\" value=\"Post\" /></td></tr>\n</tbody>\n</table>\n</form>\n<hr>";

/// The top of a page: head, title, and the posting form that submits to
/// `action`. The form of a thread page is announced by a banner and has
/// neither subject nor file field.
pub open spec fn header_markup(action: Seq<char>, is_reply: bool) -> Seq<char> {
    PAGE_HEAD@ + (if is_reply {
        REPLY_BANNER@
    } else {
        Seq::empty()
    }) + FORM_OPEN@ + action + FORM_NAME@ + (if is_reply {
        Seq::empty()
    } else {
        FORM_SUBJECT@
    }) + FORM_COMMENT@ + (if is_reply {
        Seq::empty()
    } else {
        FORM_FILE@
    }) + FORM_CLOSE@
}

/// Builds the top of a page with the posting form that submits to `action`.
pub fn base_header(action: &str, is_reply: bool) -> (header: String)
    ensures
        header@ == header_markup(action@, is_reply),
{
    let mut header = String::new();
    header.append(PAGE_HEAD);
    if is_reply {
        header.append(REPLY_BANNER);
    }
    header.append(FORM_OPEN);
    header.append(action);
    header.append(FORM_NAME);
    if !is_reply {
        header.append(FORM_SUBJECT);
    }
    header.append(FORM_COMMENT);
    if !is_reply {
        header.append(FORM_FILE);
    }
    header.append(FORM_CLOSE);
    assert(header@ =~= header_markup(action@, is_reply));
    header
}

/// The first page number of the window around `page`: two before it, and
/// never below one.
pub open spec fn window_start(page: int) -> int {
    if page > 3 {
        page - 2
    } else {
        1
    }
}

/// The last page number of the window around `page`: two after it, and never
/// above the last page.
pub open spec fn window_end(page: int, total_pages: int) -> int {
    if page + 2 > total_pages {
        total_pages
    } else {
        page + 2
    }
}

/// One page number of the navigation: plain for the current page, a link for
/// any other.
pub open spec fn page_entry_markup(p: nat, page: nat) -> Seq<char> {
    if p == page {
        "<span class=\"current\">"@ + decimal(p) + "</span>"@
    } else {
        "<a href=\"/?page="@ + decimal(p) + "\">"@ + decimal(p) + "</a>"@
    }
}

/// The page numbers from `from` to `to`, both included.
pub open spec fn window_markup(from: int, to: int, page: nat) -> Seq<char>
    decreases to - from + 1,
{
    if from > to || to < 0 {
        Seq::empty()
    } else {
        window_markup(from, to - 1, page) + page_entry_markup(to as nat, page)
    }
}

/// The link to the previous page, when there is one.
pub open spec fn prev_markup(page: nat) -> Seq<char> {
    if page > 1 {
        "<a href=\"/?page="@ + decimal((page - 1) as nat) + "\">\u{ab} Prev</a>"@
    } else {
        Seq::empty()
    }
}

/// The link to the next page, when there is one.
pub open spec fn next_markup(page: nat, total_pages: nat) -> Seq<char> {
    if page < total_pages {
        "<a href=\"/?page="@ + decimal(page + 1) + "\">Next \u{bb}</a>"@
    } else {
        Seq::empty()
    }
}

/// The link to page one when the window starts after it, with an ellipsis
/// where pages are left out between the two.
pub open spec fn first_page_markup(start: int) -> Seq<char> {
    if start > 1 {
        "<a href=\"/?page=1\">1</a>"@ + (if start > 2 {
            "<span>...</span>"@
        } else {
            Seq::empty()
        })
    } else {
        Seq::empty()
    }
}

/// The link to the last page when the window ends before it, with an ellipsis
/// where pages are left out between the two.
pub open spec fn last_page_markup(end: int, total_pages: nat) -> Seq<char> {
    if end < total_pages {
        (if end < total_pages - 1 {
            "<span>...</span>"@
        } else {
            Seq::empty()
        }) + "<a href=\"/?page="@ + decimal(total_pages) + "\">"@ + decimal(total_pages) + "</a>"@
    } else {
        Seq::empty()
    }
}

/// The navigation between index pages. A board of one page has none.
/// Otherwise it holds, in this order: the link to the previous page, the link
/// to page one and an ellipsis where the window leaves them out, the window
/// of page numbers around the current page, an ellipsis and the link to the
/// last page where the window leaves them out, and the link to the next page.
pub open spec fn pagination_markup(page: nat, total_pages: nat) -> Seq<char> {
    if total_pages <= 1 {
        Seq::empty()
    } else {
        let start = window_start(page as int);
        let end = window_end(page as int, total_pages as int);
        "<div class=\"pagination\">"@ + prev_markup(page) + first_page_markup(start)
            + window_markup(start, end, page) + last_page_markup(end, total_pages) + next_markup(
            page,
            total_pages,
        ) + "</div>"@
    }
}

fn push_page_entry(out: &mut String, p: u64, page: u64)
    ensures
        final(out)@ == old(out)@ + page_entry_markup(p as nat, page as nat),
{
    if p == page {
        out.append("<span class=\"current\">");
        push_decimal(out, p);
        out.append("</span>");
    } else {
        out.append("<a href=\"/?page=");
        push_decimal(out, p);
        out.append("\">");
        push_decimal(out, p);
        out.append("</a>");
    }
    assert(out@ =~= old(out)@ + page_entry_markup(p as nat, page as nat));
}

fn push_window(out: &mut String, start: u64, end: u64, page: u64)
    requires
        start >= 1,
    ensures
        final(out)@ == old(out)@ + window_markup(start as int, end as int, page as nat),
{
    if start > end {
        assert(out@ =~= old(out)@ + window_markup(start as int, end as int, page as nat));
        return ;
    }
    let mut p: u64 = start;
    assert(out@ =~= old(out)@ + window_markup(start as int, p - 1, page as nat));
    loop
        invariant_except_break
            out@ == old(out)@ + window_markup(start as int, p - 1, page as nat),
        invariant
            1 <= start <= p <= end,
        ensures
            out@ == old(out)@ + window_markup(start as int, end as int, page as nat),
        decreases end - p,
    {
        push_page_entry(out, p, page);
        assert(out@ =~= old(out)@ + window_markup(start as int, p as int, page as nat));
        if p == end {
            break ;
        }
        p += 1;
    }
}

fn push_prev(out: &mut String, page: u64)
    ensures
        final(out)@ == old(out)@ + prev_markup(page as nat),
{
    if page > 1 {
        out.append("<a href=\"/?page=");
        push_decimal(out, page - 1);
        out.append("\">\u{ab} Prev</a>");
    }
    assert(out@ =~= old(out)@ + prev_markup(page as nat));
}

fn push_next(out: &mut String, page: u64, total_pages: u64)
    ensures
        final(out)@ == old(out)@ + next_markup(page as nat, total_pages as nat),
{
    if page < total_pages {
        out.append("<a href=\"/?page=");
        push_decimal(out, page + 1);
        out.append("\">Next \u{bb}</a>");
    }
    assert(out@ =~= old(out)@ + next_markup(page as nat, total_pages as nat));
}

fn push_first_page(out: &mut String, start: u64)
    ensures
        final(out)@ == old(out)@ + first_page_markup(start as int),
{
    if start > 1 {
        out.append("<a href=\"/?page=1\">1</a>");
        if start > 2 {
            out.append("<span>...</span>");
        }
    }
    assert(out@ =~= old(out)@ + first_page_markup(start as int));
}

fn push_last_page(out: &mut String, end: u64, total_pages: u64)
    ensures
        final(out)@ == old(out)@ + last_page_markup(end as int, total_pages as nat),
{
    if end < total_pages {
        if end < total_pages - 1 {
            out.append("<span>...</span>");
        }
        out.append("<a href=\"/?page=");
        push_decimal(out, total_pages);
        out.append("\">");
        push_decimal(out, total_pages);
        out.append("</a>");
    }
    assert(out@ =~= old(out)@ + last_page_markup(end as int, total_pages as nat));
}

/// Builds the navigation between index pages for the page shown and the
/// number of pages there are.
pub fn render_pagination(page: u64, total_pages: u64) -> (nav: String)
    ensures
        nav@ == pagination_markup(page as nat, total_pages as nat),
{
    let mut s = String::new();
    if total_pages <= 1 {
        return s;
    }
    let start: u64 = if page > 3 {
        page - 2
    } else {
        1
    };
    let end: u64 = if page >= total_pages || total_pages - page < 2 {
        total_pages
    } else {
        page + 2
    };
    s.append("<div class=\"pagination\">");
    push_prev(&mut s, page);
    push_first_page(&mut s, start);
    push_window(&mut s, start, end, page);
    push_last_page(&mut s, end, total_pages);
    push_next(&mut s, page, total_pages);
    s.append("</div>");
    assert(s@ =~= pagination_markup(page as nat, total_pages as nat));
    s
}

} // verus!
