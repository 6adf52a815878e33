//! Posts and threads: the entities of the board and the predicates that say
//! when their parts are acceptable.

use crate::text::{blank, blank_settled, is_blank, name_settled, trim, trimmed};
use vstd::prelude::*;

verus! {

/// The display name of a poster who gave none.
pub const ANONYMOUS: &'static str = "Anonymous";

/// One message on the board: the start of a thread or a reply to one.
pub struct Post {
    /// Unique number of the post, assigned when it is stored.
    pub id: i64,
    /// Number of the post that started the thread this post belongs to.
    pub thread_id: i64,
    /// Epoch seconds of the thread's last activity; kept on the post that
    /// started the thread.
    pub bump_timestamp: i64,
    /// Display name of the poster.
    pub name: String,
    /// Subject line; only the post that starts a thread has one.
    pub subject: Option<String>,
    /// The message as the poster wrote it, line breaks and all.
    pub message: String,
    /// Stored name of the attached file.
    pub filename: Option<String>,
    /// Stored name of the attachment's thumbnail; absent when the file could
    /// not be read as an image.
    pub thumbname: Option<String>,
    /// Creation time as shown to readers.
    pub time: String,
}

/// What a [`Post`] holds, as mathematical values.
pub struct PostView {
    pub id: int,
    pub thread_id: int,
    pub bump_timestamp: int,
    pub name: Seq<char>,
    pub subject: Option<Seq<char>>,
    pub message: Seq<char>,
    pub filename: Option<Seq<char>>,
    pub thumbname: Option<Seq<char>>,
    pub time: Seq<char>,
}

/// The text that an optional string holds.
pub open spec fn opt_text(o: Option<String>) -> Option<Seq<char>> {
    match o {
        Some(s) => Some(s@),
        None => None,
    }
}

impl View for Post {
    type V = PostView;

    open spec fn view(&self) -> PostView {
        PostView {
            id: self.id as int,
            thread_id: self.thread_id as int,
            bump_timestamp: self.bump_timestamp as int,
            name: self.name@,
            subject: opt_text(self.subject),
            message: self.message@,
            filename: opt_text(self.filename),
            thumbname: opt_text(self.thumbname),
            time: self.time@,
        }
    }
}

/// A copy of an optional string.
pub fn clone_opt(o: &Option<String>) -> (r: Option<String>)
    ensures
        opt_text(r) == opt_text(*o),
{
    match o {
        Some(s) => Some(s.clone()),
        None => None,
    }
}

impl Clone for Post {
    fn clone(&self) -> (r: Self)
        ensures
            r@ == self@,
    {
        Post {
            id: self.id,
            thread_id: self.thread_id,
            bump_timestamp: self.bump_timestamp,
            name: self.name.clone(),
            subject: clone_opt(&self.subject),
            message: self.message.clone(),
            filename: clone_opt(&self.filename),
            thumbname: clone_opt(&self.thumbname),
            time: self.time.clone(),
        }
    }
}

impl PostView {
    /// A post starts a thread when the thread it belongs to is itself.
    pub open spec fn starts_thread(self) -> bool {
        self.id == self.thread_id
    }

    /// What the submission pipeline guarantees of every post it builds: a
    /// name to show, a message that is not blank, a subject only at the start
    /// of a thread, and a thumbnail only beside a file.
    pub open spec fn well_formed(self) -> bool {
        &&& self.name.len() > 0
        &&& !blank(self.message)
        &&& (self.subject is Some ==> !blank(self.subject->0))
        &&& (self.thumbname is Some ==> self.filename is Some)
    }
}

/// A display name is acceptable when it is neither empty nor blank.
pub open spec fn valid_name(name: Seq<char>) -> bool {
    !blank(name)
}

/// The display name for what a poster typed: the text without the whitespace
/// around it, or [`ANONYMOUS`] where that leaves nothing.
pub open spec fn normalized_name(raw: Seq<char>) -> Seq<char> {
    if blank(raw) {
        ANONYMOUS@
    } else {
        trimmed(raw)
    }
}

/// Whether `name` can stand as a display name.
pub fn is_valid_name(name: &str) -> (ok: bool)
    ensures
        ok == valid_name(name@),
        blank_settled(name@),
{
    !is_blank(name)
}

/// Whether a message has anything in it besides whitespace.
pub fn is_non_empty_message(message: &str) -> (ok: bool)
    ensures
        ok == !blank(message@),
        ok == (trimmed(message@).len() > 0),
        blank_settled(message@),
{
    !is_blank(message)
}

/// Whether `post` is the first post of its thread.
pub fn is_thread_start(post: &Post) -> (first: bool)
    ensures
        first == post@.starts_thread(),
{
    post.id == post.thread_id
}

/// The display name for what a poster typed into the name field.
pub fn normalize_name(raw: &str) -> (name: String)
    ensures
        name@ == normalized_name(raw@),
        name@.len() > 0,
        name_settled(raw@),
{
    if is_blank(raw) {
        proof {
            reveal_strlit("Anonymous");
        }
        ANONYMOUS.to_owned()
    } else {
        trim(raw)
    }
}

/// What a sequence of posts holds, as mathematical values.
pub open spec fn views(posts: Seq<Post>) -> Seq<PostView> {
    Seq::new(posts.len(), |i: int| posts[i]@)
}

/// A thread: the post that started it and the replies to it, oldest first.
pub struct Thread {
    pub op: Post,
    pub replies: Vec<Post>,
}

/// What a [`Thread`] holds, as mathematical values.
pub struct ThreadView {
    pub op: PostView,
    pub replies: Seq<PostView>,
}

impl View for Thread {
    type V = ThreadView;

    open spec fn view(&self) -> ThreadView {
        ThreadView { op: self.op@, replies: views(self.replies@) }
    }
}

/// The thread that the posts with one thread number form, when they are given
/// oldest first: the first of them is the start and must bear the thread's
/// number, the others are the replies. There is no thread where there are no
/// posts or the first is not the start.
pub open spec fn thread_of(posts: Seq<PostView>, thread_id: int) -> Option<ThreadView> {
    if posts.len() == 0 || posts.first().id != thread_id {
        None
    } else {
        Some(ThreadView { op: posts.first(), replies: posts.drop_first() })
    }
}

/// What an optional thread holds, as mathematical values.
pub open spec fn opt_thread_view(t: Option<Thread>) -> Option<ThreadView> {
    match t {
        Some(t) => Some(t@),
        None => None,
    }
}

/// The posts without the one numbered `id`, in the order given.
pub open spec fn without_post(posts: Seq<PostView>, id: int) -> Seq<PostView>
    decreases posts.len(),
{
    if posts.len() == 0 {
        Seq::empty()
    } else if posts.last().id == id {
        without_post(posts.drop_last(), id)
    } else {
        without_post(posts.drop_last(), id).push(posts.last())
    }
}

/// The thread that `op` starts, given the posts that bear its thread number:
/// its replies are those posts but for `op` itself.
pub open spec fn thread_under(op: PostView, posts: Seq<PostView>) -> ThreadView {
    ThreadView { op, replies: without_post(posts, op.id) }
}

impl Thread {
    /// Forms the thread that `op` starts from the posts that bear its thread
    /// number, given oldest first; `op` itself may be among them.
    pub fn under(op: Post, posts: Vec<Post>) -> (thread: Thread)
        ensures
            thread@ == thread_under(op@, views(posts@)),
    {
        let mut replies: Vec<Post> = Vec::new();
        let ghost all = posts@;
        assert(views(all.take(0)) =~= Seq::<PostView>::empty());
        assert(views(replies@) =~= Seq::<PostView>::empty());
        for post in iter: posts
            invariant
                iter.seq() == all,
                views(replies@) == without_post(views(all.take(iter.index())), op.id as int),
        {
            let ghost k = iter.index();
            let ghost done = views(replies@);
            assert(views(all.take(k + 1)).drop_last() =~= views(all.take(k)));
            assert(views(all.take(k + 1)).last() == post@);
            if post.id != op.id {
                replies.push(post);
                assert(views(replies@) =~= done.push(post@));
            }
        }
        assert(all.take(all.len() as int) =~= all);
        Thread { op, replies }
    }

    /// Forms the thread numbered `thread_id` from its posts, given oldest
    /// first. Returns `None` where the posts do not begin with the start of
    /// that thread.
    pub fn from_posts(posts: Vec<Post>, thread_id: i64) -> (thread: Option<Thread>)
        ensures
            opt_thread_view(thread) == thread_of(views(posts@), thread_id as int),
    {
        let mut posts = posts;
        let ghost all = posts@;
        if posts.len() == 0 || posts[0].id != thread_id {
            return None;
        }
        let op = posts.remove(0);
        let thread = Thread { op, replies: posts };
        assert(views(thread.replies@) =~= views(all).drop_first());
        Some(thread)
    }

    /// How many replies the thread has.
    pub fn reply_count(&self) -> (n: usize)
        ensures
            n == self@.replies.len(),
    {
        self.replies.len()
    }
}

} // verus!
