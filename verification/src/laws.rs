//! Laws of the store: properties that tie several operations together,
//! stated over the ghost models and proved once and for all.

use vstd::prelude::*;
use crate::models::{PostModel, PostViewModel};
use crate::store::{StoreModel, spec_listing, listing_upto, insert_newest_first,
    in_range_listing};

verus! {

/// A successful post creation as every creating operation commits it:
/// the new row takes the next id, is appended after every existing row,
/// and the id counter moves past it.
pub open spec fn create_commit(pre: StoreModel, rec: PostModel, post: StoreModel) -> bool {
    &&& rec.id == pre.next_post_id
    &&& post.posts == pre.posts.push(rec)
    &&& post.next_post_id == pre.next_post_id + 1
}

/// Ordering: creations commit in submission order, and ids follow.
/// Between the two creations any stretch of operations may run; none of
/// the store's operations ever lowers the id counter, so the later
/// creation's id is strictly larger.
pub proof fn lemma_post_ids_follow_order(m0: StoreModel, rec1: PostModel, m1: StoreModel,
    m2: StoreModel, rec2: PostModel, m3: StoreModel)
    requires
        create_commit(m0, rec1, m1),
        m2.next_post_id >= m1.next_post_id,
        create_commit(m2, rec2, m3),
    ensures
        rec2.id > rec1.id,
{
}

/// Ordering, adjacent form: two creations in direct succession both
/// persist, in commit order, the later one under the strictly larger id.
pub proof fn lemma_successive_creates_persist(m0: StoreModel, rec1: PostModel,
    m1: StoreModel, rec2: PostModel, m2: StoreModel)
    requires
        create_commit(m0, rec1, m1),
        create_commit(m1, rec2, m2),
    ensures
        rec2.id > rec1.id,
        m2.posts == m0.posts.push(rec1).push(rec2),
        m2.has_post_id(rec1.id),
        m2.has_post_id(rec2.id),
{
    let n = m0.posts.len() as int;
    assert(m2.posts[n] == rec1);
    assert(m2.posts[n + 1] == rec2);
}

/// Atomicity of the coupled image and row write: a well-formed store
/// never holds a row naming an image file the image store lacks. When
/// an image write fails, the creating operation leaves the store
/// unchanged, so in particular no row names the file that was never
/// written.
pub proof fn lemma_no_row_without_file(m: StoreModel, name: Seq<char>)
    requires
        m.wf(),
        !m.has_image(name),
    ensures
        forall|i: int| 0 <= i < m.posts.len()
            ==> (#[trigger] m.posts[i]).image != Some(name),
{
    assert forall|i: int| 0 <= i < m.posts.len()
        implies (#[trigger] m.posts[i]).image != Some(name) by {
        if m.posts[i].image == Some(name) {
            assert(m.has_image(name));
        }
    }
}

/// Delete round-trip: after creating a post under a fresh image name,
/// the row exists (so deleting its id reports a deletion, not a miss),
/// that row is the unique holder of the name, and removing the row and
/// the name — exactly what deletion does — restores the rows and the
/// image store to what they were before the creation.
pub proof fn lemma_create_then_delete(m0: StoreModel, rec: PostModel, name: Seq<char>,
    m1: StoreModel)
    requires
        m0.wf(),
        rec.image == Some(name),
        !m0.has_image(name),
        create_commit(m0, rec, m1),
        m1.images == m0.images.push(name),
    ensures
        m1.has_post_id(rec.id),
        forall|i: int| 0 <= i < m1.posts.len() && (#[trigger] m1.posts[i]).id == rec.id
            ==> i == m1.posts.len() - 1
                && m1.posts[i].image == Some(name)
                && m1.posts.remove(i) =~= m0.posts,
        forall|k: int| 0 <= k < m1.images.len() && #[trigger] m1.images[k] == name
            ==> k == m1.images.len() - 1
                && m1.images.remove(k) =~= m0.images,
{
    let n = m0.posts.len() as int;
    assert(m1.posts[n] == rec);
    assert forall|i: int| 0 <= i < m1.posts.len() && (#[trigger] m1.posts[i]).id == rec.id
        implies i == m1.posts.len() - 1
            && m1.posts[i].image == Some(name)
            && m1.posts.remove(i) =~= m0.posts by {
        if i < n {
            assert(m0.posts[i].id < m0.next_post_id);
        }
        assert(m1.posts.remove(n) =~= m0.posts);
    }
    assert forall|k: int| 0 <= k < m1.images.len() && #[trigger] m1.images[k] == name
        implies k == m1.images.len() - 1
            && m1.images.remove(k) =~= m0.images by {
        if k < m0.images.len() {
            assert(m0.images[k] == name);
            assert(m0.has_image(name));
        }
        assert(m1.images.remove(m0.images.len() as int) =~= m0.images);
    }
}

/// Reply resolution, populated side: the listed view of a stored post
/// whose reply names an existing post, whose board also exists, carries
/// the projection with the target's id, time, board id and board name.
pub proof fn lemma_reply_projection(m: StoreModel, i: int)
    requires
        0 <= i < m.posts.len(),
        m.posts[i].reply is Some,
        m.has_post_id(m.posts[i].reply->0),
        m.has_board_id(m.post_by_id(m.posts[i].reply->0).board),
    ensures
        m.listed_view(m.posts[i]).reply matches Some(rt)
            && rt.id == m.posts[i].reply->0
            && rt.time == m.post_by_id(m.posts[i].reply->0).time
            && rt.board == m.post_by_id(m.posts[i].reply->0).board
            && rt.board_name
                == m.board_by_id(m.post_by_id(m.posts[i].reply->0).board).name,
{
    reveal(StoreModel::resolved_reply);
    reveal(StoreModel::listed_view);
}

/// Reply resolution, absent side: a post with no reply, or one whose
/// target is gone, lists with the projection simply absent — no error.
pub proof fn lemma_reply_projection_absent(m: StoreModel, i: int)
    requires
        0 <= i < m.posts.len(),
        match m.posts[i].reply {
            Some(rid) => !m.has_post_id(rid),
            None => true,
        },
    ensures
        m.listed_view(m.posts[i]).reply is None,
{
    reveal(StoreModel::resolved_reply);
    reveal(StoreModel::listed_view);
}

/// Times never increase along a listing.
pub open spec fn times_newest_first(s: Seq<PostViewModel>) -> bool {
    forall|k1: int, k2: int|
        #![trigger s[k1], s[k2]]
        0 <= k1 < k2 < s.len() ==> s[k1].time >= s[k2].time
}

/// Inserting at the newest-first position keeps a listing ordered, and
/// adds no time later than the later of the new view and the old head.
proof fn lemma_insert_newest_first_ordered(s: Seq<PostViewModel>, v: PostViewModel)
    requires
        times_newest_first(s),
    ensures
        times_newest_first(insert_newest_first(s, v)),
        forall|k: int| 0 <= k < insert_newest_first(s, v).len()
            ==> (#[trigger] insert_newest_first(s, v)[k]).time <= v.time
                || (s.len() > 0 && insert_newest_first(s, v)[k].time <= s[0].time),
    decreases s.len(),
{
    let r = insert_newest_first(s, v);
    if s.len() == 0 {
        assert(r =~= seq![v]);
    } else if s[0].time > v.time {
        let rest = s.drop_first();
        assert forall|k1: int, k2: int|
            #![trigger rest[k1], rest[k2]]
            0 <= k1 < k2 < rest.len() implies rest[k1].time >= rest[k2].time by {
            assert(rest[k1] == s[k1 + 1]);
            assert(rest[k2] == s[k2 + 1]);
            assert(s[k1 + 1].time >= s[k2 + 1].time);
        }
        lemma_insert_newest_first_ordered(rest, v);
        let tail = insert_newest_first(rest, v);
        assert(r == seq![s[0]] + tail);
        assert forall|k: int| 0 <= k < r.len()
            implies (#[trigger] r[k]).time <= v.time
                || (s.len() > 0 && r[k].time <= s[0].time) by {
            if k == 0 {
                assert(r[k] == s[0]);
            } else {
                assert(r[k] == tail[k - 1]);
                if tail[k - 1].time <= v.time {
                } else {
                    assert(rest.len() > 0 && tail[k - 1].time <= rest[0].time);
                    assert(rest[0] == s[1]);
                    assert(s[1].time <= s[0].time);
                }
            }
        }
        assert forall|k1: int, k2: int|
            #![trigger r[k1], r[k2]]
            0 <= k1 < k2 < r.len() implies r[k1].time >= r[k2].time by {
            if k1 == 0 {
                assert(r[k2] == tail[k2 - 1]);
                if tail[k2 - 1].time <= v.time {
                    assert(v.time < s[0].time);
                } else {
                    assert(rest.len() > 0 && tail[k2 - 1].time <= rest[0].time);
                    assert(rest[0] == s[1]);
                    if s.len() > 1 {
                        assert(s[1].time <= s[0].time);
                    }
                }
            } else {
                assert(r[k1] == tail[k1 - 1]);
                assert(r[k2] == tail[k2 - 1]);
                assert(tail[k1 - 1].time >= tail[k2 - 1].time);
            }
        }
    } else {
        assert(r == seq![v] + s);
        assert forall|k1: int, k2: int|
            #![trigger r[k1], r[k2]]
            0 <= k1 < k2 < r.len() implies r[k1].time >= r[k2].time by {
            if k1 == 0 {
                assert(r[k2] == s[k2 - 1]);
                if k2 > 1 {
                    assert(s[k2 - 1].time <= s[0].time);
                }
                assert(s[0].time <= v.time);
            } else {
                assert(r[k1] == s[k1 - 1]);
                assert(r[k2] == s[k2 - 1]);
                assert(s[k1 - 1].time >= s[k2 - 1].time);
            }
        }
    }
}

/// The listing of any prefix of the stored posts is ordered newest first.
proof fn lemma_listing_upto_newest_first(m: StoreModel, board: i64, start: i64, end: i64,
    n: int)
    ensures
        times_newest_first(listing_upto(m, board, start, end, n)),
    decreases n,
{
    if n <= 0 {
    } else {
        lemma_listing_upto_newest_first(m, board, start, end, n - 1);
        if crate::store::in_range_listing(m.posts[n - 1], board, start, end) {
            lemma_insert_newest_first_ordered(
                listing_upto(m, board, start, end, n - 1),
                m.listed_view(m.posts[n - 1]),
            );
        }
    }
}

/// Range listing order: what `list_posts_in_range` returns is ordered
/// newest first — no later post ever follows an earlier one.
pub proof fn lemma_listing_newest_first(m: StoreModel, board: i64, start: i64, end: i64)
    ensures
        times_newest_first(spec_listing(m, board, start, end)),
{
    lemma_listing_upto_newest_first(m, board, start, end, m.posts.len() as int);
}

/// An ordered insertion holds the new view and the old ones, nothing else.
proof fn lemma_insert_newest_first_members(s: Seq<PostViewModel>, v: PostViewModel,
    x: PostViewModel)
    ensures
        insert_newest_first(s, v).contains(x) <==> (s.contains(x) || x == v),
    decreases s.len(),
{
    broadcast use vstd::seq_lib::lemma_seq_concat_contains_all_elements;

    let r = insert_newest_first(s, v);
    if s.len() == 0 {
        assert(r =~= seq![v]);
        assert(seq![v][0] == v);
        if r.contains(x) {
            let i = choose|i: int| 0 <= i < r.len() && r[i] == x;
            assert(x == v);
        }
    } else if s[0].time > v.time {
        let rest = s.drop_first();
        lemma_insert_newest_first_members(rest, v, x);
        let tail = insert_newest_first(rest, v);
        assert(r == seq![s[0]] + tail);
        assert(seq![s[0]].contains(x) <==> x == s[0]) by {
            assert(seq![s[0]][0] == s[0]);
            if seq![s[0]].contains(x) {
                let i = choose|i: int| 0 <= i < seq![s[0]].len() && seq![s[0]][i] == x;
                assert(x == s[0]);
            }
        }
        assert(s.contains(x) <==> (x == s[0] || rest.contains(x))) by {
            assert(s == seq![s[0]] + rest) by {
                assert(s =~= seq![s[0]] + rest);
            }
        }
    } else {
        assert(r == seq![v] + s);
        assert(seq![v].contains(x) <==> x == v) by {
            assert(seq![v][0] == v);
            if seq![v].contains(x) {
                let i = choose|i: int| 0 <= i < seq![v].len() && seq![v][i] == x;
                assert(x == v);
            }
        }
    }
}

/// What a prefix listing holds: exactly the views of the matching
/// stored rows among the first `n`.
proof fn lemma_listing_upto_members(m: StoreModel, board: i64, start: i64, end: i64,
    n: int, x: PostViewModel)
    requires
        n <= m.posts.len(),
    ensures
        listing_upto(m, board, start, end, n).contains(x) <==> exists|i: int|
            0 <= i < n && in_range_listing(#[trigger] m.posts[i], board, start, end)
            && x == m.listed_view(m.posts[i]),
    decreases n,
{
    if n <= 0 {
    } else {
        lemma_listing_upto_members(m, board, start, end, n - 1, x);
        let rest = listing_upto(m, board, start, end, n - 1);
        if crate::store::in_range_listing(m.posts[n - 1], board, start, end) {
            lemma_insert_newest_first_members(rest, m.listed_view(m.posts[n - 1]), x);
            if listing_upto(m, board, start, end, n).contains(x) {
                if x == m.listed_view(m.posts[n - 1]) {
                    assert(0 <= n - 1 < n
                        && in_range_listing(m.posts[n - 1], board, start, end)
                        && x == m.listed_view(m.posts[n - 1]));
                }
            }
        }
    }
}

/// Range listing contents: the listing holds a view exactly when some
/// stored post of the board, with its time inside the window, has it.
pub proof fn lemma_listing_members(m: StoreModel, board: i64, start: i64, end: i64,
    x: PostViewModel)
    ensures
        spec_listing(m, board, start, end).contains(x) <==> exists|i: int|
            0 <= i < m.posts.len()
            && in_range_listing(#[trigger] m.posts[i], board, start, end)
            && x == m.listed_view(m.posts[i]),
{
    lemma_listing_upto_members(m, board, start, end, m.posts.len() as int, x);
}

} // verus!
