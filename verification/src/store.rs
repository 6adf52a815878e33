//! The board held in memory: every post in the order in which it was stored,
//! and the operations a store of posts must offer.
//!
//! Numbers are handed out in ascending order and never reused. The index lists
//! the threads most recently active first; of two threads active at the same
//! second the one started later comes first.

use crate::model::{views, Post, PostView};
use vstd::prelude::*;

verus! {

/// Why the store could not take a post.
#[derive(Clone, Copy, Debug, PartialEq, Eq, Structural)]
pub enum StorageError {
    /// Every post number has been handed out.
    Exhausted,
}

/// All posts of a board.
pub struct Board {
    posts: Vec<Post>,
    next_id: i64,
}

/// What a [`Board`] holds, as mathematical values.
pub struct BoardView {
    /// The posts, in the order in which they were stored.
    pub posts: Seq<PostView>,
    /// The number that the next post will get.
    pub next_id: int,
}

impl View for Board {
    type V = BoardView;

    closed spec fn view(&self) -> BoardView {
        BoardView { posts: views(self.posts@), next_id: self.next_id as int }
    }
}

/// Later posts have higher numbers.
pub open spec fn ids_ascend(posts: Seq<PostView>) -> bool {
    forall|i: int, j: int| 0 <= i < j < posts.len() ==> posts[i].id < posts[j].id
}

impl BoardView {
    /// The numbers of the posts ascend in the order of storing, are positive,
    /// and lie below the number that comes next.
    pub open spec fn wf(self) -> bool {
        &&& 1 <= self.next_id <= i64::MAX
        &&& ids_ascend(self.posts)
        &&& forall|i: int| 0 <= i < self.posts.len() ==> 1 <= (#[trigger] self.posts[i]).id < self.next_id
    }
}

/// How many of the posts start a thread.
pub open spec fn count_starts(posts: Seq<PostView>) -> nat
    decreases posts.len(),
{
    if posts.len() == 0 {
        0
    } else {
        count_starts(posts.drop_last()) + if posts.last().starts_thread() {
            1nat
        } else {
            0nat
        }
    }
}

/// The posts that belong to thread `thread_id`, in the order given.
pub open spec fn in_thread(posts: Seq<PostView>, thread_id: int) -> Seq<PostView>
    decreases posts.len(),
{
    if posts.len() == 0 {
        Seq::empty()
    } else if posts.last().thread_id == thread_id {
        in_thread(posts.drop_last(), thread_id).push(posts.last())
    } else {
        in_thread(posts.drop_last(), thread_id)
    }
}

/// Whether the index lists thread start `a` before thread start `b`: `a` was
/// active more recently, or at the same second and was started later.
pub open spec fn ranks_before(a: PostView, b: PostView) -> bool {
    a.bump_timestamp > b.bump_timestamp || (a.bump_timestamp == b.bump_timestamp && a.id > b.id)
}

/// A ranked listing with one more post put at its place.
pub open spec fn insert_ranked(listing: Seq<PostView>, p: PostView) -> Seq<PostView>
    decreases listing.len(),
{
    if listing.len() == 0 {
        seq![p]
    } else if ranks_before(p, listing.first()) {
        seq![p] + listing
    } else {
        seq![listing.first()] + insert_ranked(listing.drop_first(), p)
    }
}

/// The index of the board: the posts that start a thread, each listed before
/// those it [`ranks_before`].
pub open spec fn index_order(posts: Seq<PostView>) -> Seq<PostView>
    decreases posts.len(),
{
    if posts.len() == 0 {
        Seq::empty()
    } else if posts.last().starts_thread() {
        insert_ranked(index_order(posts.drop_last()), posts.last())
    } else {
        index_order(posts.drop_last())
    }
}

/// At most `limit` entries of a listing, after the first `offset`.
pub open spec fn slice_of<T>(listing: Seq<T>, offset: nat, limit: nat) -> Seq<T> {
    let from = if offset < listing.len() {
        offset
    } else {
        listing.len()
    };
    let to = if from + limit < listing.len() {
        from + limit
    } else {
        listing.len()
    };
    listing.subrange(from as int, to as int)
}

/// The posts with one more stored: it gets the number `id`.
pub open spec fn with_post(posts: Seq<PostView>, post: PostView, id: int) -> Seq<PostView> {
    posts.push(PostView { id, ..post })
}

/// The posts with the post numbered `id` moved to thread `thread_id`.
pub open spec fn with_thread_id(posts: Seq<PostView>, id: int, thread_id: int) -> Seq<PostView> {
    Seq::new(
        posts.len(),
        |i: int|
            if posts[i].id == id {
                PostView { thread_id, ..posts[i] }
            } else {
                posts[i]
            },
    )
}

/// The posts with the activity of the post numbered `id` set to `time`.
pub open spec fn with_bump(posts: Seq<PostView>, id: int, time: int) -> Seq<PostView> {
    Seq::new(
        posts.len(),
        |i: int|
            if posts[i].id == id {
                PostView { bump_timestamp: time, ..posts[i] }
            } else {
                posts[i]
            },
    )
}

/// The posts of `posts` that stand at the places `order` names, in the order
/// of `order`.
pub open spec fn picked(posts: Seq<PostView>, order: Seq<usize>) -> Seq<PostView> {
    Seq::new(order.len(), |k: int| posts[order[k] as int])
}

/// In a ranked listing every entry ranks before all that follow it.
pub open spec fn ranked(listing: Seq<PostView>) -> bool {
    forall|i: int, j: int| 0 <= i < j < listing.len() ==> ranks_before(listing[i], listing[j])
}

/// Putting a post into a ranked listing places it before the first entry that
/// it ranks before.
pub proof fn lemma_insert_ranked_at(listing: Seq<PostView>, p: PostView, j: int)
    requires
        0 <= j <= listing.len(),
        forall|k: int| 0 <= k < j ==> !ranks_before(p, listing[k]),
        j < listing.len() ==> ranks_before(p, listing[j]),
    ensures
        insert_ranked(listing, p) == listing.insert(j, p),
    decreases listing.len(),
{
    if listing.len() == 0 {
        assert(listing.insert(j, p) =~= seq![p]);
    } else if j == 0 {
        assert(listing.insert(0, p) =~= seq![p] + listing);
    } else {
        let rest = listing.drop_first();
        assert forall|k: int| 0 <= k < j - 1 implies !ranks_before(p, rest[k]) by {
            assert(rest[k] == listing[k + 1]);
        }
        lemma_insert_ranked_at(rest, p, j - 1);
        assert(listing.insert(j, p) =~= seq![listing.first()] + rest.insert(j - 1, p));
    }
}

/// Putting a post into a listing adds that post and nothing else.
pub proof fn lemma_insert_ranked_members(listing: Seq<PostView>, p: PostView)
    ensures
        insert_ranked(listing, p).len() == listing.len() + 1,
        forall|q: PostView| #[trigger]
            insert_ranked(listing, p).contains(q) <==> (q == p || listing.contains(q)),
    decreases listing.len(),
{
    let out = insert_ranked(listing, p);
    if listing.len() == 0 {
        assert(out[0] == p);
    } else if ranks_before(p, listing.first()) {
        assert(out[0] == p);
        assert forall|q: PostView| #[trigger] out.contains(q) <==> (q == p || listing.contains(q)) by {
            if listing.contains(q) {
                let k = choose|k: int| 0 <= k < listing.len() && listing[k] == q;
                assert(out[k + 1] == q);
            }
            if out.contains(q) {
                let k = choose|k: int| 0 <= k < out.len() && out[k] == q;
                if k > 0 {
                    assert(listing[k - 1] == q);
                }
            }
        }
    } else {
        let rest = listing.drop_first();
        let tail = insert_ranked(rest, p);
        lemma_insert_ranked_members(rest, p);
        assert forall|q: PostView| #[trigger] out.contains(q) <==> (q == p || listing.contains(q)) by {
            if q == p {
                assert(tail.contains(p));
                let k = choose|k: int| 0 <= k < tail.len() && tail[k] == p;
                assert(out[k + 1] == p);
            }
            if listing.contains(q) {
                let k = choose|k: int| 0 <= k < listing.len() && listing[k] == q;
                if k == 0 {
                    assert(out[0] == q);
                } else {
                    assert(rest[k - 1] == q);
                    assert(tail.contains(q));
                    let m = choose|m: int| 0 <= m < tail.len() && tail[m] == q;
                    assert(out[m + 1] == q);
                }
            }
            if out.contains(q) {
                let k = choose|k: int| 0 <= k < out.len() && out[k] == q;
                if k == 0 {
                    assert(listing[0] == q);
                } else {
                    assert(tail[k - 1] == q);
                    assert(tail.contains(q));
                    if q != p {
                        assert(rest.contains(q));
                        let m = choose|m: int| 0 <= m < rest.len() && rest[m] == q;
                        assert(listing[m + 1] == q);
                    }
                }
            }
        }
    }
}

/// Putting a post into a ranked listing keeps it ranked, if the post bears a
/// number that no entry bears.
pub proof fn lemma_insert_ranked_keeps_rank(listing: Seq<PostView>, p: PostView)
    requires
        ranked(listing),
        forall|k: int| 0 <= k < listing.len() ==> listing[k].id != p.id,
    ensures
        ranked(insert_ranked(listing, p)),
    decreases listing.len(),
{
    let out = insert_ranked(listing, p);
    if listing.len() == 0 {
    } else if ranks_before(p, listing.first()) {
        assert forall|i: int, j: int| 0 <= i < j < out.len() implies ranks_before(out[i], out[j]) by {
            if i == 0 {
                assert(out[j] == listing[j - 1]);
                if j > 1 {
                    assert(ranks_before(listing[0], listing[j - 1]));
                }
            } else {
                assert(out[i] == listing[i - 1] && out[j] == listing[j - 1]);
            }
        }
    } else {
        let rest = listing.drop_first();
        let tail = insert_ranked(rest, p);
        assert(ranked(rest)) by {
            assert forall|i: int, j: int| 0 <= i < j < rest.len() implies ranks_before(
                rest[i],
                rest[j],
            ) by {
                assert(rest[i] == listing[i + 1] && rest[j] == listing[j + 1]);
            }
        }
        assert forall|k: int| 0 <= k < rest.len() implies rest[k].id != p.id by {
            assert(rest[k] == listing[k + 1]);
        }
        lemma_insert_ranked_keeps_rank(rest, p);
        lemma_insert_ranked_members(rest, p);
        assert forall|i: int, j: int| 0 <= i < j < out.len() implies ranks_before(out[i], out[j]) by {
            if i == 0 {
                let q = tail[j - 1];
                assert(out[j] == q);
                assert(tail.contains(q));
                if q == p {
                    assert(listing[0].id != p.id);
                } else {
                    assert(rest.contains(q));
                    let m = choose|m: int| 0 <= m < rest.len() && rest[m] == q;
                    assert(listing[m + 1] == q);
                    assert(ranks_before(listing[0], listing[m + 1]));
                }
            } else {
                assert(out[i] == tail[i - 1] && out[j] == tail[j - 1]);
            }
        }
    }
}

/// The index lists exactly the posts that start a thread.
pub proof fn lemma_index_order_members(posts: Seq<PostView>)
    ensures
        index_order(posts).len() == count_starts(posts),
        forall|q: PostView| #[trigger]
            index_order(posts).contains(q) <==> (posts.contains(q) && q.starts_thread()),
    decreases posts.len(),
{
    let out = index_order(posts);
    if posts.len() == 0 {
    } else {
        let before = posts.drop_last();
        let last = posts.last();
        lemma_index_order_members(before);
        if last.starts_thread() {
            lemma_insert_ranked_members(index_order(before), last);
        }
        assert forall|q: PostView| #[trigger] out.contains(q) <==> (posts.contains(q)
            && q.starts_thread()) by {
            if posts.contains(q) {
                let k = choose|k: int| 0 <= k < posts.len() && posts[k] == q;
                if k < posts.len() - 1 {
                    assert(before[k] == q);
                    assert(before.contains(q));
                }
            }
            if before.contains(q) {
                let k = choose|k: int| 0 <= k < before.len() && before[k] == q;
                assert(posts[k] == q);
            }
            assert(posts[posts.len() - 1] == last);
        }
    }
}

/// On a board whose numbers ascend the index is ranked: every thread stands
/// before all threads that were active less recently, and before those active
/// at the same second that were started earlier.
pub proof fn lemma_index_order_ranked(posts: Seq<PostView>)
    requires
        ids_ascend(posts),
    ensures
        ranked(index_order(posts)),
    decreases posts.len(),
{
    if posts.len() > 0 {
        let before = posts.drop_last();
        let last = posts.last();
        assert(ids_ascend(before)) by {
            assert forall|i: int, j: int| 0 <= i < j < before.len() implies before[i].id
                < before[j].id by {
                assert(before[i] == posts[i] && before[j] == posts[j]);
            }
        }
        lemma_index_order_ranked(before);
        if last.starts_thread() {
            let listing = index_order(before);
            lemma_index_order_members(before);
            assert forall|k: int| 0 <= k < listing.len() implies listing[k].id != last.id by {
                assert(listing.contains(listing[k]));
                assert(before.contains(listing[k]));
                let m = choose|m: int| 0 <= m < before.len() && before[m] == listing[k];
                assert(posts[m].id < posts[posts.len() - 1].id);
            }
            lemma_insert_ranked_keeps_rank(listing, last);
        }
    }
}

/// A ranked listing is settled by what it lists: two ranked listings of the
/// same posts are the same listing.
pub proof fn lemma_ranked_listing_is_unique(a: Seq<PostView>, b: Seq<PostView>)
    requires
        ranked(a),
        ranked(b),
        forall|q: PostView| a.contains(q) <==> b.contains(q),
    ensures
        a == b,
    decreases a.len(),
{
    if a.len() == 0 {
        if b.len() > 0 {
            assert(b.contains(b[0]));
            assert(a.contains(b[0]));
        }
        assert(a =~= b);
    } else {
        assert(a.contains(a[0]));
        assert(b.contains(a[0]));
        let k = choose|k: int| 0 <= k < b.len() && b[k] == a[0];
        if k > 0 {
            assert(ranks_before(b[0], b[k]));
            assert(b.contains(b[0]));
            assert(a.contains(b[0]));
            let j = choose|j: int| 0 <= j < a.len() && a[j] == b[0];
            if j > 0 {
                assert(ranks_before(a[0], a[j]));
            }
            assert(false);
        }
        let ta = a.drop_first();
        let tb = b.drop_first();
        assert(ranked(ta)) by {
            assert forall|i: int, j: int| 0 <= i < j < ta.len() implies ranks_before(ta[i], ta[j]) by {
                assert(ta[i] == a[i + 1] && ta[j] == a[j + 1]);
            }
        }
        assert(ranked(tb)) by {
            assert forall|i: int, j: int| 0 <= i < j < tb.len() implies ranks_before(tb[i], tb[j]) by {
                assert(tb[i] == b[i + 1] && tb[j] == b[j + 1]);
            }
        }
        assert forall|q: PostView| ta.contains(q) <==> tb.contains(q) by {
            if ta.contains(q) {
                let i = choose|i: int| 0 <= i < ta.len() && ta[i] == q;
                assert(a[i + 1] == q);
                assert(ranks_before(a[0], a[i + 1]));
                assert(a.contains(q));
                assert(b.contains(q));
                let m = choose|m: int| 0 <= m < b.len() && b[m] == q;
                assert(m > 0);
                assert(tb[m - 1] == q);
            }
            if tb.contains(q) {
                let i = choose|i: int| 0 <= i < tb.len() && tb[i] == q;
                assert(b[i + 1] == q);
                assert(ranks_before(b[0], b[i + 1]));
                assert(b.contains(q));
                assert(a.contains(q));
                let m = choose|m: int| 0 <= m < a.len() && a[m] == q;
                assert(m > 0);
                assert(ta[m - 1] == q);
            }
        }
        lemma_ranked_listing_is_unique(ta, tb);
        assert(a =~= seq![a[0]] + ta);
        assert(b =~= seq![b[0]] + tb);
    }
}

/// The index is the ranked listing of the posts that start a thread: on a
/// board whose numbers ascend, any listing that is ranked and lists exactly
/// those posts is the index.
pub proof fn lemma_index_is_the_ranked_listing(posts: Seq<PostView>, listing: Seq<PostView>)
    requires
        ids_ascend(posts),
        ranked(listing),
        forall|q: PostView| #[trigger]
            listing.contains(q) <==> (posts.contains(q) && q.starts_thread()),
    ensures
        listing == index_order(posts),
{
    lemma_index_order_members(posts);
    lemma_index_order_ranked(posts);
    assert forall|q: PostView| listing.contains(q) <==> index_order(posts).contains(q) by {
        assert(index_order(posts).contains(q) <==> (posts.contains(q) && q.starts_thread()));
    }
    lemma_ranked_listing_is_unique(listing, index_order(posts));
}

impl Board {
    /// Whether the board is in order; see [`BoardView::wf`].
    pub open spec fn wf(&self) -> bool {
        self@.wf()
    }

    /// An empty board. Its first post will get the number one.
    pub fn new() -> (board: Board)
        ensures
            board.wf(),
            board@.posts.len() == 0,
            board@.next_id == 1,
    {
        Board { posts: Vec::new(), next_id: 1 }
    }

    /// Whether posts can be taken back into a board: their numbers are
    /// positive, ascend, and stay below the largest number there is.
    pub open spec fn loadable(posts: Seq<PostView>) -> bool {
        &&& ids_ascend(posts)
        &&& forall|i: int| 0 <= i < posts.len() ==> 1 <= (#[trigger] posts[i]).id < i64::MAX
    }

    /// The number that follows the last of `posts`, or one if there are none.
    pub open spec fn number_after(posts: Seq<PostView>) -> int {
        if posts.len() == 0 {
            1
        } else {
            posts.last().id + 1
        }
    }

    /// Takes posts that were stored before back into a board, in the order
    /// in which they were stored. Returns `None` unless their numbers are
    /// positive and ascend.
    pub fn from_posts(posts: Vec<Post>) -> (board: Option<Board>)
        ensures
            board is Some <==> Self::loadable(views(posts@)),
            board matches Some(b) ==> b.wf() && b@.posts == views(posts@) && b@.next_id
                == Self::number_after(views(posts@)),
    {
        let ghost all = views(posts@);
        let mut next_id: i64 = 1;
        let mut i: usize = 0;
        while i < posts.len()
            invariant
                i <= posts.len(),
                all == views(posts@),
                1 <= next_id <= i64::MAX,
                next_id == Self::number_after(all.take(i as int)),
                Self::loadable(all.take(i as int)),
                forall|k: int| 0 <= k < i ==> (#[trigger] all[k]).id < next_id,
            decreases posts.len() - i,
        {
            let id = posts[i].id;
            if id < next_id || id == i64::MAX {
                proof {
                    assert(all[i as int].id == id);
                    if Self::loadable(all) {
                        if i > 0 {
                            assert(all.take(i as int).last() == all[i - 1]);
                            assert(all[i - 1].id < all[i as int].id);
                        }
                    }
                }
                return None;
            }
            proof {
                let upto = all.take(i + 1);
                assert(upto.last() == all[i as int]);
                assert forall|a: int, b: int| 0 <= a < b < upto.len() implies upto[a].id
                    < upto[b].id by {
                    if b < i {
                        assert(all.take(i as int)[a] == upto[a] && all.take(i as int)[b] == upto[b]);
                    } else {
                        assert(upto[a] == all[a]);
                    }
                }
                assert forall|k: int| 0 <= k < upto.len() implies 1 <= (#[trigger] upto[k]).id
                    < i64::MAX by {
                    if k < i {
                        assert(all.take(i as int)[k] == upto[k]);
                    }
                }
            }
            next_id = id + 1;
            i += 1;
        }
        assert(all.take(posts.len() as int) =~= all);
        Some(Board { posts, next_id })
    }

    /// How many posts the board holds.
    pub fn len(&self) -> (n: usize)
        ensures
            n == self@.posts.len(),
    {
        self.posts.len()
    }

    /// Counts the posts that start a thread.
    pub fn count_thread_starts(&self) -> (n: u64)
        ensures
            n == count_starts(self@.posts),
    {
        let mut n: u64 = 0;
        let mut i: usize = 0;
        assert(self@.posts.take(0) =~= Seq::<PostView>::empty());
        while i < self.posts.len()
            invariant
                i <= self.posts.len(),
                n <= i,
                n == count_starts(self@.posts.take(i as int)),
            decreases self.posts.len() - i,
        {
            assert(self@.posts.take(i + 1).drop_last() =~= self@.posts.take(i as int));
            if self.posts[i].id == self.posts[i].thread_id {
                n += 1;
            }
            i += 1;
        }
        assert(self@.posts.take(self.posts.len() as int) =~= self@.posts);
        n
    }

    /// Lists the posts of thread `thread_id`, oldest first.
    pub fn list_thread(&self, thread_id: i64) -> (posts: Vec<Post>)
        ensures
            views(posts@) == in_thread(self@.posts, thread_id as int),
    {
        let mut out: Vec<Post> = Vec::new();
        let mut i: usize = 0;
        assert(self@.posts.take(0) =~= Seq::<PostView>::empty());
        assert(views(out@) =~= Seq::<PostView>::empty());
        while i < self.posts.len()
            invariant
                i <= self.posts.len(),
                views(out@) == in_thread(self@.posts.take(i as int), thread_id as int),
            decreases self.posts.len() - i,
        {
            assert(self@.posts.take(i + 1).drop_last() =~= self@.posts.take(i as int));
            if self.posts[i].thread_id == thread_id {
                let ghost before = views(out@);
                let copy = self.posts[i].clone();
                out.push(copy);
                assert(views(out@) =~= before.push(self.posts@[i as int]@));
            }
            i += 1;
        }
        assert(self@.posts.take(self.posts.len() as int) =~= self@.posts);
        out
    }

    /// Stores a post and returns the number it got: the next free one,
    /// whatever number the post came with. Fails, and stores nothing, once the
    /// numbers are used up.
    pub fn insert_post(&mut self, post: Post) -> (r: Result<i64, StorageError>)
        requires
            old(self).wf(),
        ensures
            final(self).wf(),
            old(self)@.next_id < i64::MAX ==> r == Ok::<i64, StorageError>(old(self)@.next_id as i64)
                && final(self)@.next_id == old(self)@.next_id + 1 && final(self)@.posts == with_post(
                old(self)@.posts,
                post@,
                old(self)@.next_id,
            ),
            old(self)@.next_id == i64::MAX ==> r == Err::<i64, StorageError>(StorageError::Exhausted)
                && final(self)@ == old(self)@,
    {
        if self.next_id == i64::MAX {
            return Err(StorageError::Exhausted);
        }
        let id = self.next_id;
        let mut post = post;
        let ghost given = post@;
        post.id = id;
        self.posts.push(post);
        self.next_id = id + 1;
        assert(self@.posts =~= with_post(old(self)@.posts, given, id as int));
        Ok(id)
    }

    /// Moves the post numbered `id`, if there is one, to thread `thread_id`.
    pub fn set_thread_id(&mut self, id: i64, thread_id: i64)
        requires
            old(self).wf(),
        ensures
            final(self).wf(),
            final(self)@.next_id == old(self)@.next_id,
            final(self)@.posts == with_thread_id(old(self)@.posts, id as int, thread_id as int),
    {
        let mut i: usize = 0;
        while i < self.posts.len()
            invariant
                i <= self.posts.len(),
                self.posts.len() == old(self).posts.len(),
                self.next_id == old(self).next_id,
                forall|k: int|
                    0 <= k < i ==> (#[trigger] self.posts@[k])@ == with_thread_id(
                        old(self)@.posts,
                        id as int,
                        thread_id as int,
                    )[k],
                forall|k: int| i <= k < self.posts.len() ==> self.posts@[k] == old(self).posts@[k],
            decreases self.posts.len() - i,
        {
            if self.posts[i].id == id {
                self.posts[i].thread_id = thread_id;
            }
            i += 1;
        }
        assert(self@.posts =~= with_thread_id(old(self)@.posts, id as int, thread_id as int));
    }

    /// Sets the time of last activity of the post numbered `thread_id`, if
    /// there is one, to `time`.
    pub fn update_bump_timestamp(&mut self, thread_id: i64, time: i64)
        requires
            old(self).wf(),
        ensures
            final(self).wf(),
            final(self)@.next_id == old(self)@.next_id,
            final(self)@.posts == with_bump(old(self)@.posts, thread_id as int, time as int),
    {
        let mut i: usize = 0;
        while i < self.posts.len()
            invariant
                i <= self.posts.len(),
                self.posts.len() == old(self).posts.len(),
                self.next_id == old(self).next_id,
                forall|k: int|
                    0 <= k < i ==> (#[trigger] self.posts@[k])@ == with_bump(
                        old(self)@.posts,
                        thread_id as int,
                        time as int,
                    )[k],
                forall|k: int| i <= k < self.posts.len() ==> self.posts@[k] == old(self).posts@[k],
            decreases self.posts.len() - i,
        {
            if self.posts[i].id == thread_id {
                self.posts[i].bump_timestamp = time;
            }
            i += 1;
        }
        assert(self@.posts =~= with_bump(old(self)@.posts, thread_id as int, time as int));
    }
    /// Whether the index lists `a` before `b`.
    fn lists_before(a: &Post, b: &Post) -> (first: bool)
        ensures
            first == ranks_before(a@, b@),
    {
        a.bump_timestamp > b.bump_timestamp || (a.bump_timestamp == b.bump_timestamp && a.id
            > b.id)
    }

    /// Where in the store the posts of the index stand, in the order of the
    /// index.
    fn ranked_positions(&self) -> (order: Vec<usize>)
        ensures
            forall|k: int| 0 <= k < order.len() ==> (#[trigger] order[k]) < self.posts.len(),
            picked(self@.posts, order@) == index_order(self@.posts),
    {
        let mut order: Vec<usize> = Vec::new();
        let mut i: usize = 0;
        assert(self@.posts.take(0) =~= Seq::<PostView>::empty());
        assert(picked(self@.posts, order@) =~= Seq::<PostView>::empty());
        while i < self.posts.len()
            invariant
                i <= self.posts.len(),
                forall|k: int| 0 <= k < order.len() ==> (#[trigger] order[k]) < i,
                picked(self@.posts, order@) == index_order(self@.posts.take(i as int)),
            decreases self.posts.len() - i,
        {
            assert(self@.posts.take(i + 1).drop_last() =~= self@.posts.take(i as int));
            if self.posts[i].id == self.posts[i].thread_id {
                let ghost listing = picked(self@.posts, order@);
                let ghost p = self@.posts[i as int];
                let mut j: usize = 0;
                while j < order.len() && !Self::lists_before(&self.posts[i], &self.posts[order[j]])
                    invariant
                        j <= order.len(),
                        i < self.posts.len(),
                        forall|k: int| 0 <= k < order.len() ==> (#[trigger] order[k]) < i,
                        listing == picked(self@.posts, order@),
                        p == self@.posts[i as int],
                        forall|k: int| 0 <= k < j ==> !ranks_before(p, listing[k]),
                    decreases order.len() - j,
                {
                    j += 1;
                }
                proof {
                    lemma_insert_ranked_at(listing, p, j as int);
                }
                order.insert(j, i);
                assert(picked(self@.posts, order@) =~= listing.insert(j as int, p));
            }
            i += 1;
        }
        assert(self@.posts.take(self.posts.len() as int) =~= self@.posts);
        order
    }

    /// Lists the posts that start a thread, most recently active first:
    /// at most `limit` of them, after the first `offset`.
    pub fn list_thread_starts(&self, limit: u64, offset: u64) -> (starts: Vec<Post>)
        ensures
            views(starts@) == slice_of(index_order(self@.posts), offset as nat, limit as nat),
    {
        let order = self.ranked_positions();
        let n = order.len();
        let from: usize = if offset < n as u64 {
            offset as usize
        } else {
            n
        };
        let to: usize = if limit < (n - from) as u64 {
            from + limit as usize
        } else {
            n
        };
        let mut out: Vec<Post> = Vec::new();
        let mut k: usize = from;
        let ghost listing = index_order(self@.posts);
        assert(views(out@) =~= listing.subrange(from as int, k as int));
        while k < to
            invariant
                from <= k <= to <= n,
                n == order.len(),
                forall|m: int| 0 <= m < order.len() ==> (#[trigger] order[m]) < self.posts.len(),
                picked(self@.posts, order@) == listing,
                views(out@) == listing.subrange(from as int, k as int),
            decreases to - k,
        {
            let ghost before = views(out@);
            let copy = self.posts[order[k]].clone();
            out.push(copy);
            assert(listing[k as int] == self@.posts[order[k as int] as int]);
            assert(views(out@) =~= before.push(listing[k as int]));
            k += 1;
            assert(listing.subrange(from as int, k as int) =~= before.push(listing[k - 1]));
        }
        out
    }
}

} // verus!
