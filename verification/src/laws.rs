//! What holds of the board as a whole: statements that relate several
//! operations, proved from the contracts of those operations.

use crate::clock::{label_of, TIME_FORMAT};
use crate::model::{thread_of, PostView};
use crate::pages::{board_thread_markup, NOT_FOUND_PAGE};
use crate::paging::{offset_of, page_count, preview, PAGE_SIZE, PREVIEW_REPLIES};
use crate::store::{
    count_starts, ids_ascend, in_thread, index_order, lemma_index_order_members,
    lemma_index_order_ranked, ranks_before, slice_of, with_post, BoardView,
};
use crate::submit::{
    attached_as, handed_out, reply_submitted, thread_submitted, with_reply, with_thread, Outcome,
    Rejection, ReplyDraftView, TextFieldView, ThreadDraftView,
};
use crate::text::{blank, escaped, escaped_char, lemma_trimmed_empty_iff_blank, lowercased};
use crate::upload::{
    allowed_extension, file_step_of, stored_name_of, thumb_name_of, well_formed_token,
    FileStepView, Upload,
};
use vstd::prelude::*;

verus! {

/// Every post of a thread listing is a post of the board and belongs to the
/// thread.
pub proof fn lemma_in_thread_members(posts: Seq<PostView>, thread_id: int)
    ensures
        forall|q: PostView| #[trigger]
            in_thread(posts, thread_id).contains(q) <==> (posts.contains(q) && q.thread_id
                == thread_id),
    decreases posts.len(),
{
    let out = in_thread(posts, thread_id);
    if posts.len() > 0 {
        let before = posts.drop_last();
        let last = posts.last();
        let rest = in_thread(before, thread_id);
        lemma_in_thread_members(before, thread_id);
        assert forall|q: PostView| #[trigger] out.contains(q) <==> (posts.contains(q) && q.thread_id
            == thread_id) by {
            if posts.contains(q) {
                let k = choose|k: int| 0 <= k < posts.len() && posts[k] == q;
                if k < posts.len() - 1 {
                    assert(before[k] == q);
                    assert(before.contains(q));
                }
            }
            if before.contains(q) {
                let k = choose|k: int| 0 <= k < before.len() && before[k] == q;
                assert(posts[k] == q);
            }
            assert(posts[posts.len() - 1] == last);
            if last.thread_id == thread_id {
                if rest.contains(q) {
                    let k = choose|k: int| 0 <= k < rest.len() && rest[k] == q;
                    assert(out[k] == q);
                }
                assert(out[out.len() - 1] == last);
                if out.contains(q) {
                    let k = choose|k: int| 0 <= k < out.len() && out[k] == q;
                    if k < out.len() - 1 {
                        assert(rest[k] == q);
                    }
                }
            }
        }
    }
}

/// A post that was stored can be had again: it is the last post of the
/// listing of its thread, under the number it was given.
pub proof fn lemma_stored_post_is_listed(posts: Seq<PostView>, post: PostView, id: int)
    ensures
        in_thread(with_post(posts, post, id), post.thread_id).len() > 0,
        in_thread(with_post(posts, post, id), post.thread_id).last() == (PostView { id, ..post }),
        in_thread(with_post(posts, post, id), post.thread_id).drop_last() == in_thread(
            posts,
            post.thread_id,
        ),
{
    let after = with_post(posts, post, id);
    assert(after.drop_last() =~= posts);
    assert(in_thread(after, post.thread_id) == in_thread(posts, post.thread_id).push(
        PostView { id, ..post },
    ));
    assert(in_thread(after, post.thread_id).drop_last() =~= in_thread(posts, post.thread_id));
}

/// Asking for the thread of a number that no post bears shows the page that
/// says there is no such thread, whatever else the board holds.
pub proof fn lemma_unknown_thread_is_not_found(
    posts: Seq<PostView>,
    thread_id: int,
    error: Option<Seq<char>>,
)
    requires
        forall|k: int| 0 <= k < posts.len() ==> posts[k].id != thread_id,
    ensures
        thread_of(in_thread(posts, thread_id), thread_id) is None,
        board_thread_markup(posts, thread_id, error) == NOT_FOUND_PAGE@,
{
    let listed = in_thread(posts, thread_id);
    lemma_in_thread_members(posts, thread_id);
    if listed.len() > 0 {
        assert(listed.contains(listed[0]));
        assert(posts.contains(listed[0]));
    }
}

/// The posts of a thread are listed oldest first: their numbers ascend.
pub proof fn lemma_thread_ascends(posts: Seq<PostView>, thread_id: int)
    requires
        ids_ascend(posts),
    ensures
        ids_ascend(in_thread(posts, thread_id)),
        forall|k: int|
            0 <= k < in_thread(posts, thread_id).len() && posts.len() > 0 ==> (#[trigger] in_thread(
                posts,
                thread_id,
            )[k]).id <= posts.last().id,
    decreases posts.len(),
{
    if posts.len() > 0 {
        let before = posts.drop_last();
        assert(ids_ascend(before)) by {
            assert forall|i: int, j: int| 0 <= i < j < before.len() implies before[i].id
                < before[j].id by {
                assert(before[i] == posts[i] && before[j] == posts[j]);
            }
        }
        lemma_thread_ascends(before, thread_id);
        if before.len() > 0 {
            assert(before.last() == posts[posts.len() - 2]);
            assert(posts[posts.len() - 2].id < posts[posts.len() - 1].id);
        }
    }
}

/// A thread has one start: on a board whose numbers ascend, two posts that
/// start the same thread are the same post.
pub proof fn lemma_one_start_per_thread(posts: Seq<PostView>, i: int, j: int)
    requires
        ids_ascend(posts),
        0 <= i < posts.len(),
        0 <= j < posts.len(),
        posts[i].starts_thread(),
        posts[j].starts_thread(),
        posts[i].thread_id == posts[j].thread_id,
    ensures
        i == j,
{
    if i < j {
        assert(posts[i].id < posts[j].id);
    } else if j < i {
        assert(posts[j].id < posts[i].id);
    }
}

/// A reply brings its thread to the top of the index. If the thread exists
/// and no other thread has been active after `now`, nor at `now` with a
/// higher number, then after the reply is stored the index begins with the
/// start of that thread, whose time of last activity is `now`, the instant at
/// which the reply was created.
pub proof fn lemma_reply_brings_thread_to_top(
    before: BoardView,
    reply: PostView,
    now: int,
)
    requires
        before.wf(),
        exists|k: int|
            0 <= k < before.posts.len() && before.posts[k].id == reply.thread_id
                && before.posts[k].starts_thread(),
        forall|k: int|
            0 <= k < before.posts.len() && before.posts[k].starts_thread() && before.posts[k].id
                != reply.thread_id ==> before.posts[k].bump_timestamp < now || (
            before.posts[k].bump_timestamp == now && before.posts[k].id < reply.thread_id),
    ensures
        index_order(with_reply(before.posts, reply, before.next_id, now)).len() > 0,
        index_order(with_reply(before.posts, reply, before.next_id, now)).first().id
            == reply.thread_id,
        index_order(with_reply(before.posts, reply, before.next_id, now)).first().bump_timestamp
            == now,
{
    let posts = before.posts;
    let id = before.next_id;
    let t = reply.thread_id;
    let stored = with_post(posts, reply, id);
    let after = with_reply(posts, reply, id, now);
    let k = choose|k: int| 0 <= k < posts.len() && posts[k].id == t && posts[k].starts_thread();
    assert(after.len() == posts.len() + 1);
    assert forall|i: int| 0 <= i < posts.len() implies after[i].id == posts[i].id && after[i].thread_id
        == posts[i].thread_id && (posts[i].id != t ==> after[i] == posts[i]) by {
        assert(stored[i] == posts[i]);
    }
    assert(after[posts.len() as int].id == id && after[posts.len() as int].thread_id == t) by {
        assert(stored[posts.len() as int] == PostView { id, ..reply });
    }
    assert(ids_ascend(after)) by {
        assert forall|i: int, j: int| 0 <= i < j < after.len() implies after[i].id < after[j].id by {
            if j < posts.len() {
                assert(posts[i].id < posts[j].id);
            }
        }
    }
    let op = after[k];
    assert(op.id == t && op.thread_id == t && op.bump_timestamp == now) by {
        assert(stored[k] == posts[k]);
    }
    let listing = index_order(after);
    lemma_index_order_members(after);
    lemma_index_order_ranked(after);
    assert(after.contains(op));
    assert(listing.contains(op));
    let m = choose|m: int| 0 <= m < listing.len() && listing[m] == op;
    if m > 0 {
        let top = listing[0];
        assert(ranks_before(top, op));
        assert(listing.contains(top));
        assert(after.contains(top));
        let i = choose|i: int| 0 <= i < after.len() && after[i] == top;
        if i < posts.len() {
            if posts[i].id == t {
                if i < k {
                    assert(posts[i].id < posts[k].id);
                } else if k < i {
                    assert(posts[k].id < posts[i].id);
                }
                assert(top == op);
            } else {
                assert(top == posts[i]);
            }
        } else {
            assert(posts[k].id < id);
        }
        assert(false);
    }
}

/// Posts are not changed once they are stored, but for the time of last
/// activity of the start of a thread. After a reply is stored, every post
/// that was there before is as it was, except that the post which bears the
/// number of the reply's thread was last active at `now`; and the reply
/// stands last, under the number it was given.
pub proof fn lemma_reply_leaves_posts_as_they_were(
    posts: Seq<PostView>,
    reply: PostView,
    id: int,
    now: int,
    i: int,
)
    requires
        0 <= i < posts.len(),
    ensures
        with_reply(posts, reply, id, now).len() == posts.len() + 1,
        posts[i].id != reply.thread_id ==> with_reply(posts, reply, id, now)[i] == posts[i],
        posts[i].id == reply.thread_id ==> with_reply(posts, reply, id, now)[i] == (PostView {
            bump_timestamp: now,
            ..posts[i]
        }),
        with_reply(posts, reply, id, now).last().id == id,
        with_reply(posts, reply, id, now).last().message == reply.message,
        with_reply(posts, reply, id, now).last().thread_id == reply.thread_id,
{
    let stored = with_post(posts, reply, id);
    assert(stored[i] == posts[i]);
    assert(stored[posts.len() as int] == PostView { id, ..reply });
}

/// Starting a thread changes no post that was there before, and the new post
/// is its own thread.
pub proof fn lemma_thread_leaves_posts_as_they_were(
    posts: Seq<PostView>,
    post: PostView,
    id: int,
    i: int,
)
    requires
        0 <= i < posts.len(),
    ensures
        with_thread(posts, post, id).len() == posts.len() + 1,
        with_thread(posts, post, id)[i] == posts[i],
        with_thread(posts, post, id).last().starts_thread(),
        with_thread(posts, post, id).last().id == id,
{
}

/// Whether a post was created at or before `instant`, as far as its creation
/// time as shown to readers tells.
pub open spec fn created_by(post: PostView, instant: int) -> bool {
    exists|s: int| s <= instant && post.time == #[trigger] label_of(s, TIME_FORMAT@)
}

/// Whether the post at place `k` was last active no earlier than any other
/// post of its thread was created.
pub open spec fn active_after_replies(posts: Seq<PostView>, k: int) -> bool {
    forall|j: int|
        0 <= j < posts.len() && j != k && posts[j].thread_id == posts[k].id ==> created_by(
            #[trigger] posts[j],
            posts[k].bump_timestamp,
        )
}

/// The start of a thread is always last active no earlier than any reply to
/// it was created, as long as the clock does not go back. If that holds of a
/// thread, and a reply is submitted to it at an instant `now` that is not
/// before the thread's last activity, then it holds of the thread afterwards,
/// the new reply included.
pub proof fn lemma_thread_stays_active_after_replies(
    before: BoardView,
    k: int,
    draft: ReplyDraftView,
    now: int,
)
    requires
        before.wf(),
        0 <= k < before.posts.len(),
        active_after_replies(before.posts, k),
        before.posts[k].bump_timestamp <= now,
    ensures
        active_after_replies(
            with_reply(
                before.posts,
                draft.post(before.posts[k].id, now),
                before.next_id,
                now,
            ),
            k,
        ),
        with_reply(before.posts, draft.post(before.posts[k].id, now), before.next_id, now)[k].bump_timestamp
            == now,
{
    let posts = before.posts;
    let t = posts[k].id;
    let reply = draft.post(t, now);
    let stored = with_post(posts, reply, before.next_id);
    let after = with_reply(posts, reply, before.next_id, now);
    assert(stored[k] == posts[k]);
    assert(after[k].id == t && after[k].bump_timestamp == now);
    assert forall|j: int| 0 <= j < after.len() && j != k && after[j].thread_id == after[k].id implies created_by(
        #[trigger] after[j],
        after[k].bump_timestamp,
    ) by {
        if j < posts.len() {
            assert(stored[j] == posts[j]);
            if j < k {
                assert(posts[j].id < posts[k].id);
            } else {
                assert(posts[k].id < posts[j].id);
            }
            assert(after[j] == posts[j]);
            assert(created_by(posts[j], posts[k].bump_timestamp));
            let s = choose|s: int|
                s <= posts[k].bump_timestamp && posts[j].time == #[trigger] label_of(
                    s,
                    TIME_FORMAT@,
                );
            assert(s <= now && after[j].time == label_of(s, TIME_FORMAT@));
        } else {
            assert(stored[j] == PostView { id: before.next_id, ..reply });
            assert(after[j].time == label_of(now, TIME_FORMAT@));
        }
    }
}

/// A new thread without a subject is turned down and stores nothing. If no
/// subject field of the form holds anything but whitespace, and no file was
/// discarded, the submission is rejected for want of subject or message,
/// whatever the message is, and the board stays as it was.
pub proof fn lemma_thread_without_subject_is_rejected(
    before: BoardView,
    fields: Seq<TextFieldView>,
    now: int,
    outcome: Outcome,
    after: BoardView,
)
    requires
        forall|i: int| 0 <= i < fields.len() && fields[i].name == "subject"@ ==> blank(fields[i].value),
        thread_submitted(before, ThreadDraftView::empty().with_fields(fields), now, outcome, after),
    ensures
        outcome == Outcome::Rejected(Rejection::MissingSubjectOrComment),
        after == before,
{
    lemma_blank_subject_stays_absent(ThreadDraftView::empty(), fields);
}

/// Text fields whose subject is blank add no subject to a draft, and text
/// fields never mark a draft's file.
pub proof fn lemma_blank_subject_stays_absent(draft: ThreadDraftView, fields: Seq<TextFieldView>)
    requires
        forall|i: int| 0 <= i < fields.len() && fields[i].name == "subject"@ ==> blank(fields[i].value),
    ensures
        draft.with_fields(fields).subject == draft.subject,
        draft.with_fields(fields).invalid_file == draft.invalid_file,
    decreases fields.len(),
{
    if fields.len() > 0 {
        let head = fields.drop_last();
        assert forall|i: int| 0 <= i < head.len() && head[i].name == "subject"@ implies blank(
            head[i].value,
        ) by {
            assert(head[i] == fields[i]);
        }
        lemma_blank_subject_stays_absent(draft, head);
    }
}

/// A reply without a message is turned down and stores nothing.
pub proof fn lemma_reply_without_message_is_rejected(
    before: BoardView,
    thread_id: int,
    fields: Seq<TextFieldView>,
    now: int,
    outcome: Outcome,
    after: BoardView,
)
    requires
        forall|i: int| 0 <= i < fields.len() && fields[i].name == "message"@ ==> blank(fields[i].value),
        reply_submitted(
            before,
            thread_id,
            ReplyDraftView::empty().with_fields(fields),
            now,
            outcome,
            after,
        ),
    ensures
        outcome == Outcome::Rejected(Rejection::MissingComment),
        after == before,
{
    lemma_blank_message_stays_absent(ReplyDraftView::empty(), fields);
}

/// Text fields whose message is blank add no message to the draft of a reply.
pub proof fn lemma_blank_message_stays_absent(draft: ReplyDraftView, fields: Seq<TextFieldView>)
    requires
        forall|i: int| 0 <= i < fields.len() && fields[i].name == "message"@ ==> blank(fields[i].value),
    ensures
        draft.with_fields(fields).message == draft.message,
    decreases fields.len(),
{
    if fields.len() > 0 {
        let head = fields.drop_last();
        assert forall|i: int| 0 <= i < head.len() && head[i].name == "message"@ implies blank(
            head[i].value,
        ) by {
            assert(head[i] == fields[i]);
        }
        lemma_blank_message_stays_absent(draft, head);
    }
}

/// A file that is not accepted rejects the whole submission. A file with a
/// name whose extension is not an allowed one is discarded; once a file has
/// been discarded, whatever text fields are read before or after it, the
/// submission is rejected for its file and the board stays as it was.
pub proof fn lemma_unaccepted_file_rejects_submission(
    before: BoardView,
    read_first: Seq<TextFieldView>,
    file_name: Seq<char>,
    extension: Seq<char>,
    size: nat,
    token: Seq<char>,
    read_after: Seq<TextFieldView>,
    now: int,
    outcome: Outcome,
    after: BoardView,
)
    requires
        file_name.len() > 0,
        !allowed_extension(lowercased(extension)),
        thread_submitted(
            before,
            ThreadDraftView::empty().with_fields(read_first).with_file_step(
                file_step_of(Some(file_name), extension, size, token),
            ).with_fields(read_after),
            now,
            outcome,
            after,
        ),
    ensures
        file_step_of(Some(file_name), extension, size, token) is Discard,
        outcome == Outcome::Rejected(Rejection::InvalidFileType),
        after == before,
{
    let marked = ThreadDraftView::empty().with_fields(read_first).with_file_step(
        file_step_of(Some(file_name), extension, size, token),
    );
    lemma_text_fields_keep_file_mark(marked, read_after);
}

/// Reading text fields does not change whether a draft's file was discarded.
pub proof fn lemma_text_fields_keep_file_mark(draft: ThreadDraftView, fields: Seq<TextFieldView>)
    ensures
        draft.with_fields(fields).invalid_file == draft.invalid_file,
    decreases fields.len(),
{
    if fields.len() > 0 {
        lemma_text_fields_keep_file_mark(draft, fields.drop_last());
    }
}

/// The pages of the index hold every thread once: a page that exists begins
/// inside the listing, holds [`PAGE_SIZE`] threads unless it is the last, and
/// the last page holds what remains.
pub proof fn lemma_page_sizes(threads: nat, page: nat)
    requires
        1 <= page <= page_count(threads),
    ensures
        offset_of(page) <= threads,
        page < page_count(threads) ==> offset_of(page) + PAGE_SIZE <= threads,
        page == page_count(threads) ==> threads - offset_of(page) <= PAGE_SIZE,
        threads > 0 ==> offset_of(page) < threads,
{
    assert((page - 1) * 15 <= (page_count(threads) - 1) * 15) by (nonlinear_arith)
        requires
            1 <= page <= page_count(threads),
    ;
    if page < page_count(threads) {
        assert(page * 15 <= (page_count(threads) - 1) * 15) by (nonlinear_arith)
            requires
                page + 1 <= page_count(threads),
        ;
    }
}

/// A page of the index lists the threads at its place in the order of the
/// index: entry `i` of page `page` is entry `offset_of(page) + i` of the
/// index.
pub proof fn lemma_page_entries(posts: Seq<PostView>, page: nat, i: int)
    requires
        1 <= page <= page_count(count_starts(posts)),
        0 <= i < slice_of(index_order(posts), offset_of(page), PAGE_SIZE as nat).len(),
    ensures
        offset_of(page) + i < index_order(posts).len(),
        slice_of(index_order(posts), offset_of(page), PAGE_SIZE as nat)[i] == index_order(
            posts,
        )[offset_of(page) + i],
{
    lemma_index_order_members(posts);
    lemma_page_sizes(count_starts(posts), page);
}

/// The preview of a thread is the end of its replies: the last three of
/// more than three, and all of three or fewer.
pub proof fn lemma_preview_is_the_end<T>(replies: Seq<T>)
    ensures
        replies.len() <= PREVIEW_REPLIES ==> preview(replies) == replies,
        replies.len() > PREVIEW_REPLIES ==> preview(replies).len() == PREVIEW_REPLIES,
        forall|i: int|
            0 <= i < preview(replies).len() ==> #[trigger] preview(replies)[i] == replies[replies.len()
                - preview(replies).len() + i],
{
    if replies.len() <= PREVIEW_REPLIES {
        assert(replies.skip(0) =~= replies);
    }
}

/// A character that markup cannot take for the start or end of a tag or of a
/// quoted value.
pub open spec fn inert(c: char) -> bool {
    c != '<' && c != '>' && c != '"' && c != '\''
}

/// What stands for one character of user text holds no character that could
/// open or close a tag or a quoted value.
pub proof fn lemma_escaped_char_is_inert(c: char)
    ensures
        forall|i: int| 0 <= i < escaped_char(c).len() ==> inert(#[trigger] escaped_char(c)[i]),
{
    reveal_strlit("&amp;");
    reveal_strlit("&lt;");
    reveal_strlit("&gt;");
    reveal_strlit("&quot;");
    reveal_strlit("&#39;");
}

/// Escaped text cannot be taken for markup: whatever the user typed, no
/// character of its escaped form opens or closes a tag or a quoted value.
pub proof fn lemma_escaped_is_inert(s: Seq<char>)
    ensures
        forall|i: int| 0 <= i < escaped(s).len() ==> inert(#[trigger] escaped(s)[i]),
    decreases s.len(),
{
    if s.len() > 0 {
        lemma_escaped_is_inert(s.drop_last());
        lemma_escaped_char_is_inert(s.last());
        let head = escaped(s.drop_last());
        let tail = escaped_char(s.last());
        assert forall|i: int| 0 <= i < escaped(s).len() implies inert(#[trigger] escaped(s)[i]) by {
            if i < head.len() {
                assert(escaped(s)[i] == head[i]);
            } else {
                assert(escaped(s)[i] == tail[i - head.len()]);
            }
        }
    }
}

/// Text without reserved characters is its own escaped form.
pub proof fn lemma_plain_text_escapes_to_itself(s: Seq<char>)
    requires
        forall|i: int| 0 <= i < s.len() ==> inert(#[trigger] s[i]) && s[i] != '&',
    ensures
        escaped(s) == s,
    decreases s.len(),
{
    if s.len() > 0 {
        assert forall|i: int| 0 <= i < s.drop_last().len() implies inert(
            #[trigger] s.drop_last()[i],
        ) && s.drop_last()[i] != '&' by {
            assert(s.drop_last()[i] == s[i]);
        }
        lemma_plain_text_escapes_to_itself(s.drop_last());
        assert(escaped(s) =~= s.drop_last().push(s.last()));
        assert(s.drop_last().push(s.last()) =~= s);
    } else {
        assert(escaped(s) =~= s);
    }
}

/// The names under which attachments are kept need no escaping: a name made
/// from a well-formed token and an allowed extension, and the name of its
/// thumbnail, hold no character that markup reserves.
pub proof fn lemma_stored_names_need_no_escaping(token: Seq<char>, ext: Seq<char>)
    requires
        well_formed_token(token),
        allowed_extension(ext),
    ensures
        escaped(stored_name_of(token, ext)) == stored_name_of(token, ext),
        escaped(thumb_name_of(token)) == thumb_name_of(token),
{
    reveal_strlit("jpg");
    reveal_strlit("jpeg");
    reveal_strlit("png");
    reveal_strlit("gif");
    reveal_strlit("webp");
    reveal_strlit(".");
    reveal_strlit("_thumb.jpg");
    let stored = stored_name_of(token, ext);
    let thumb = thumb_name_of(token);
    assert forall|i: int| 0 <= i < stored.len() implies inert(#[trigger] stored[i]) && stored[i]
        != '&' by {
        if i < token.len() {
            assert(stored[i] == token[i]);
        } else if i == token.len() {
            assert(stored[i] == '.');
        } else {
            assert(stored[i] == ext[i - token.len() - 1]);
        }
    }
    assert forall|i: int| 0 <= i < thumb.len() implies inert(#[trigger] thumb[i]) && thumb[i]
        != '&' by {
        if i < token.len() {
            assert(thumb[i] == token[i]);
        } else {
            assert(thumb[i] == "_thumb.jpg"@[i - token.len()]);
        }
    }
    lemma_plain_text_escapes_to_itself(stored);
    lemma_plain_text_escapes_to_itself(thumb);
}

/// What holds of a draft at every point of reading a form: it has a name,
/// what it holds as subject or message is not blank, it has a thumbnail
/// only beside a file, and the file it holds for writing is the one whose
/// names it records.
pub open spec fn sound(draft: ThreadDraftView) -> bool {
    &&& draft.name.len() > 0
    &&& (draft.subject is Some ==> !blank(draft.subject->0))
    &&& (draft.message is Some ==> !blank(draft.message->0))
    &&& (draft.thumbname is Some ==> draft.filename is Some)
    &&& (draft.upload matches Some(u) ==> draft.filename == Some(u.stored_name@) && (
    draft.thumbname is Some <==> u.thumbnail is Some) && (draft.thumbname is Some
        ==> draft.thumbname == Some(u.thumb_name@)))
}

/// A draft is sound from the start and stays so through every step of
/// reading a form.
pub proof fn lemma_draft_stays_sound(
    draft: ThreadDraftView,
    field: Seq<char>,
    value: Seq<char>,
    step: FileStepView,
    stored_name: Seq<char>,
    thumb_name: Seq<char>,
    thumbnail_made: bool,
    upload: Upload,
)
    requires
        sound(draft),
    ensures
        sound(ThreadDraftView::empty()),
        sound(draft.with_text(field, value)),
        sound(draft.with_file_step(step)),
        sound(draft.with_attachment(stored_name, thumb_name, thumbnail_made)),
        sound(draft.with_upload(upload)),
{
    reveal_strlit("Anonymous");
    lemma_trimmed_empty_iff_blank(value);
}

/// Reading text fields keeps a draft sound.
pub proof fn lemma_fields_keep_draft_sound(draft: ThreadDraftView, fields: Seq<TextFieldView>)
    requires
        sound(draft),
    ensures
        sound(draft.with_fields(fields)),
    decreases fields.len(),
{
    if fields.len() > 0 {
        lemma_fields_keep_draft_sound(draft, fields.drop_last());
        lemma_draft_stays_sound(
            draft.with_fields(fields.drop_last()),
            fields.last().name,
            fields.last().value,
            FileStepView::Ignore,
            Seq::empty(),
            Seq::empty(),
            false,
            arbitrary(),
        );
    }
}

/// Validation comes before anything is written. A draft that is rejected
/// hands out no file, whatever file was attached while the form was read:
/// neither when it is finished nor when it is submitted. In particular a
/// new thread with an accepted picture and a blank subject leaves both the
/// board and the stored files as they were.
pub proof fn lemma_rejected_draft_hands_out_no_file(
    before: BoardView,
    draft: ThreadDraftView,
    now: int,
    outcome: Outcome,
    after: BoardView,
)
    requires
        draft.rejection() is Some,
        thread_submitted(before, draft, now, outcome, after),
    ensures
        draft.released() is None,
        handed_out(draft, outcome) is None,
        outcome == Outcome::Rejected(draft.rejection()->0),
        after == before,
{
}

/// Attaching a file does not make up for a missing subject: if no subject
/// field of the form holds anything but whitespace, then whatever files are
/// attached and whatever else is read, the draft is rejected and hands out
/// nothing.
pub proof fn lemma_attached_file_is_held_back_without_subject(
    read_first: Seq<TextFieldView>,
    file_name: Option<Seq<char>>,
    content: Seq<u8>,
    attached: ThreadDraftView,
    read_after: Seq<TextFieldView>,
)
    requires
        forall|i: int|
            0 <= i < read_first.len() && read_first[i].name == "subject"@ ==> blank(
                read_first[i].value,
            ),
        forall|i: int|
            0 <= i < read_after.len() && read_after[i].name == "subject"@ ==> blank(
                read_after[i].value,
            ),
        attached_as(ThreadDraftView::empty().with_fields(read_first), file_name, content, attached),
    ensures
        attached.with_fields(read_after).rejection() is Some,
        attached.with_fields(read_after).released() is None,
{
    let start = ThreadDraftView::empty().with_fields(read_first);
    lemma_blank_subject_stays_absent(ThreadDraftView::empty(), read_first);
    assert(attached.subject == start.subject);
    lemma_blank_subject_stays_absent(attached, read_after);
}

/// A file that is attached is held for writing under the names the draft
/// records, with its content, and nothing else about the draft changes;
/// a file that is discarded marks the draft and is not held.
pub proof fn lemma_attached_file_is_recorded(
    before: ThreadDraftView,
    file_name: Option<Seq<char>>,
    content: Seq<u8>,
    after: ThreadDraftView,
)
    requires
        sound(before),
        attached_as(before, file_name, content, after),
    ensures
        sound(after),
        after.name == before.name && after.subject == before.subject && after.message
            == before.message,
        before.invalid_file ==> after.invalid_file,
        after.upload != before.upload ==> after.upload is Some && after.upload->0.content@
            == content && content.len() > 0 && file_name is Some && after.filename == Some(
            after.upload->0.stored_name@,
        ),
{
}

/// The pipeline builds well-formed posts only: the post made from a sound
/// draft that is not rejected has a name, a subject and a message that are
/// not blank, and a thumbnail only beside a file, and it bears the instant of
/// its creation as its time of last activity.
pub proof fn lemma_accepted_draft_makes_well_formed_post(draft: ThreadDraftView, now: int)
    requires
        sound(draft),
        draft.rejection() is None,
    ensures
        draft.post(now).well_formed(),
        draft.post(now).subject is Some,
        draft.post(now).bump_timestamp == now,
{
}

/// A reply built by the pipeline has a name and a message that is not blank,
/// and neither subject nor file.
pub proof fn lemma_accepted_reply_is_well_formed(
    fields: Seq<TextFieldView>,
    thread_id: int,
    now: int,
)
    requires
        ReplyDraftView::empty().with_fields(fields).rejection() is None,
    ensures
        ReplyDraftView::empty().with_fields(fields).post(thread_id, now).well_formed(),
        ReplyDraftView::empty().with_fields(fields).post(thread_id, now).subject is None,
        ReplyDraftView::empty().with_fields(fields).post(thread_id, now).filename is None,
        ReplyDraftView::empty().with_fields(fields).post(thread_id, now).thread_id == thread_id,
{
    lemma_reply_fields_keep_sound(ReplyDraftView::empty(), fields);
}

/// Reading text fields keeps the draft of a reply with a name and with no
/// message that is blank.
pub proof fn lemma_reply_fields_keep_sound(draft: ReplyDraftView, fields: Seq<TextFieldView>)
    requires
        draft.name.len() > 0 || draft == ReplyDraftView::empty(),
        draft.message is Some ==> !blank(draft.message->0),
    ensures
        draft.with_fields(fields).name.len() > 0,
        draft.with_fields(fields).message is Some ==> !blank(
            draft.with_fields(fields).message->0,
        ),
    decreases fields.len(),
{
    reveal_strlit("Anonymous");
    if fields.len() > 0 {
        lemma_reply_fields_keep_sound(draft, fields.drop_last());
        lemma_trimmed_empty_iff_blank(fields.last().value);
    }
}

} // verus!
