//! The store the persistence worker owns: boards, posts, and the set of
//! filenames the image store holds, with the invariants that tie them
//! together.
//!
//! Every operation of the task protocol is a verified transition of this
//! state. The durable SQLite mirror and the image directory are kept in
//! step by the unverified shell, which performs exactly the effects these
//! transitions prescribe.

use vstd::prelude::*;
use vstd::pervasive::VecAdditionalExecFns;
use crate::models::{Board, BoardModel, PostRecord, PostModel, Post, ReplyTo, ReplyToModel,
    PostViewModel, whois_model};
use crate::images::InsertImage;
use crate::whois::WhoisResult;
use crate::timestamps::{TS_MIN, TS_MAX, timestamp_in_range};

verus! {

/// Why a post could not be created.
#[derive(Debug, PartialEq, Eq)]
pub enum CreatePostError {
    /// The named board does not exist.
    BoardNotFound,
    /// The request replies to a post id that does not exist.
    ReplyNotFound,
    /// The coupled image write failed (for instance a name collision),
    /// so no row was inserted.
    ImageWrite,
    /// The id space is exhausted; the storage equivalent of a full table.
    Full,
}

/// A creation that was validated and now waits for its image payload to
/// be written to the image store — file first, row second. The row is
/// inserted by `finish_create_post`, and only if the write succeeded.
pub struct PostPlan {
    pub board_id: i64,
    pub content: String,
    pub ip: String,
    pub whois: Option<WhoisResult>,
    pub reply: Option<u64>,
    pub image: InsertImage,
    pub time: i64,
}

/// What `create_post` decided: either the request is complete (no image
/// was attached, or it failed validation), or the caller must perform
/// the create-only image write and report back.
pub enum CreateStep {
    Done(Result<u64, CreatePostError>),
    NeedImageWrite(PostPlan),
}

/// Why a board could not be created.
#[derive(Debug, PartialEq, Eq)]
pub enum CreateBoardError {
    /// A board of that name already exists: the uniqueness conflict,
    /// distinguished from every other failure.
    NameTaken,
    /// The id space is exhausted; the storage equivalent of a full table.
    Full,
}

/// Why a board could not be updated.
#[derive(Debug, PartialEq, Eq)]
pub enum UpdateBoardError {
    /// The new name is already taken by a different board.
    NameTaken,
}

/// Ghost model of the whole store state.
#[verifier::ext_equal]
pub struct StoreModel {
    pub boards: Seq<BoardModel>,
    pub posts: Seq<PostModel>,
    pub images: Seq<Seq<char>>,
    pub next_post_id: u64,
    pub next_board_id: i64,
}

impl StoreModel {
    /// A file of this name stands in the image store.
    pub open spec fn has_image(self, n: Seq<char>) -> bool {
        exists|i: int| 0 <= i < self.images.len() && #[trigger] self.images[i] == n
    }

    /// A board of this name exists.
    pub open spec fn has_board_named(self, name: Seq<char>) -> bool {
        exists|i: int| 0 <= i < self.boards.len() && (#[trigger] self.boards[i]).name == name
    }

    /// A board with this id exists.
    pub open spec fn has_board_id(self, id: i64) -> bool {
        exists|i: int| 0 <= i < self.boards.len() && (#[trigger] self.boards[i]).id == id
    }

    /// A post with this id exists.
    pub open spec fn has_post_id(self, id: u64) -> bool {
        exists|i: int| 0 <= i < self.posts.len() && (#[trigger] self.posts[i]).id == id
    }

    /// Index of the board with this name (meaningful under
    /// `has_board_named`, where well-formedness makes it unique).
    pub open spec fn board_index_named(self, name: Seq<char>) -> int {
        choose|i: int| 0 <= i < self.boards.len() && (#[trigger] self.boards[i]).name == name
    }

    /// Id of the board with this name.
    pub open spec fn board_id_named(self, name: Seq<char>) -> i64 {
        self.boards[self.board_index_named(name)].id
    }

    /// The reply target of a request is satisfiable: absent, or naming
    /// an existing post.
    pub open spec fn reply_ok(self, reply: Option<u64>) -> bool {
        match reply {
            Some(rid) => self.has_post_id(rid),
            None => true,
        }
    }

    /// The post with this id (meaningful under `has_post_id`).
    pub open spec fn post_by_id(self, id: u64) -> PostModel {
        self.posts[choose|i: int|
            0 <= i < self.posts.len() && (#[trigger] self.posts[i]).id == id]
    }

    /// The board with this id (meaningful under `has_board_id`).
    pub open spec fn board_by_id(self, id: i64) -> BoardModel {
        self.boards[choose|i: int|
            0 <= i < self.boards.len() && (#[trigger] self.boards[i]).id == id]
    }

    /// The projection of a reply target: present exactly when the target
    /// post still exists and its board does too; absent otherwise (a
    /// deleted target is no error).
    #[verifier::opaque]
    pub open spec fn resolved_reply(self, rid: u64) -> Option<ReplyToModel> {
        if self.has_post_id(rid) {
            let t = self.post_by_id(rid);
            if self.has_board_id(t.board) {
                Some(ReplyToModel {
                    id: rid,
                    time: t.time,
                    board: t.board,
                    board_name: self.board_by_id(t.board).name,
                })
            } else {
                None
            }
        } else {
            None
        }
    }

    /// The projection of an optional raw reply id.
    pub open spec fn reply_view(self, reply: Option<u64>) -> Option<ReplyToModel> {
        match reply {
            Some(rid) => self.resolved_reply(rid),
            None => None,
        }
    }

    /// What the read path returns for a stored post: the row with its
    /// resolved reply projection.
    #[verifier::opaque]
    pub open spec fn listed_view(self, p: PostModel) -> PostViewModel {
        PostViewModel {
            id: p.id,
            content: p.content,
            image: p.image,
            ip: p.ip,
            whois: p.whois,
            reply: self.reply_view(p.reply),
            time: p.time,
            board: p.board,
        }
    }

    /// Well-formedness: board ids and names unique (ids in creation
    /// order), post ids strictly increasing in storage order and below
    /// the next id to be assigned, every stored time representable, every
    /// referenced image file present, and no image filename stored twice.
    pub open spec fn wf(self) -> bool {
        &&& (forall|i: int, j: int|
            #![trigger self.boards[i], self.boards[j]]
            0 <= i < j < self.boards.len() ==> self.boards[i].id < self.boards[j].id
                && self.boards[i].name != self.boards[j].name)
        &&& (forall|i: int| 0 <= i < self.boards.len()
            ==> (#[trigger] self.boards[i]).id < self.next_board_id)
        &&& (forall|i: int, j: int|
            #![trigger self.posts[i], self.posts[j]]
            0 <= i < j < self.posts.len() ==> self.posts[i].id < self.posts[j].id
                && (self.posts[i].image matches Some(n)
                    ==> self.posts[j].image matches Some(m) ==> n != m))
        &&& (forall|i: int| 0 <= i < self.posts.len()
            ==> (#[trigger] self.posts[i]).id < self.next_post_id)
        &&& (forall|i: int| 0 <= i < self.posts.len()
            ==> timestamp_in_range((#[trigger] self.posts[i]).time as int))
        &&& (forall|i: int| 0 <= i < self.posts.len()
            ==> ((#[trigger] self.posts[i]).image matches Some(n) ==> self.has_image(n)))
        &&& (forall|i: int, j: int|
            #![trigger self.images[i], self.images[j]]
            0 <= i < j < self.images.len() ==> self.images[i] != self.images[j])
    }
}

/// The store: exclusive state of the single persistence worker.
pub struct Store {
    boards: Vec<Board>,
    posts: Vec<PostRecord>,
    images: Vec<String>,
    next_post_id: u64,
    next_board_id: i64,
}

impl View for Store {
    type V = StoreModel;

    closed spec fn view(&self) -> StoreModel {
        StoreModel {
            boards: self.boards@.map_values(|b: Board| b@),
            posts: self.posts@.map_values(|p: PostRecord| p@),
            images: self.images@.map_values(|s: String| s@),
            next_post_id: self.next_post_id,
            next_board_id: self.next_board_id,
        }
    }
}

impl Store {
    /// An empty store; ids start at 1, as the storage backend assigns them.
    pub fn new() -> (s: Store)
        ensures
            s@.wf(),
            s@.boards =~= Seq::<BoardModel>::empty(),
            s@.posts =~= Seq::<PostModel>::empty(),
            s@.images =~= Seq::<Seq<char>>::empty(),
            s@.next_post_id == 1,
            s@.next_board_id == 1,
    {
        let s = Store {
            boards: Vec::new(),
            posts: Vec::new(),
            images: Vec::new(),
            next_post_id: 1,
            next_board_id: 1,
        };
        assert(s@.boards =~= Seq::<BoardModel>::empty());
        assert(s@.posts =~= Seq::<PostModel>::empty());
        assert(s@.images =~= Seq::<Seq<char>>::empty());
        s
    }

    /// Index of the board with this name, if any.
    fn find_board_named(&self, name: &String) -> (r: Option<usize>)
        ensures
            match r {
                Some(i) => i < self@.boards.len() && self@.boards[i as int].name == name@,
                None => !self@.has_board_named(name@),
            },
    {
        let n = self.boards.len();
        let mut i: usize = 0;
        while i < n
            invariant
                n == self.boards.len(),
                i <= n,
                forall|k: int| 0 <= k < i ==> (#[trigger] self@.boards[k]).name != name@,
            decreases n - i,
        {
            if self.boards[i].name == *name {
                return Some(i);
            }
            i += 1;
        }
        None
    }

    /// Index of the board with this id, if any.
    fn find_board_by_id(&self, id: i64) -> (r: Option<usize>)
        ensures
            match r {
                Some(i) => i < self@.boards.len() && self@.boards[i as int].id == id,
                None => !self@.has_board_id(id),
            },
    {
        let n = self.boards.len();
        let mut i: usize = 0;
        while i < n
            invariant
                n == self.boards.len(),
                i <= n,
                forall|k: int| 0 <= k < i ==> (#[trigger] self@.boards[k]).id != id,
            decreases n - i,
        {
            if self.boards[i].id == id {
                return Some(i);
            }
            i += 1;
        }
        None
    }

    /// Creates a board. Fails with the distinct `NameTaken` conflict when
    /// a board of that name exists, leaving every board untouched.
    pub fn create_board(&mut self, name: String, description: String, color: u32)
        -> (r: Result<i64, CreateBoardError>)
        requires
            old(self)@.wf(),
        ensures
            final(self)@.wf(),
            final(self)@.posts =~= old(self)@.posts,
            final(self)@.images =~= old(self)@.images,
            final(self)@.next_post_id == old(self)@.next_post_id,
            old(self)@.has_board_named(name@) ==> (r matches Err(CreateBoardError::NameTaken)
                && final(self)@ =~= old(self)@),
            !old(self)@.has_board_named(name@) && old(self)@.next_board_id == i64::MAX
                ==> (r matches Err(CreateBoardError::Full) && final(self)@ =~= old(self)@),
            !old(self)@.has_board_named(name@) && old(self)@.next_board_id < i64::MAX
                ==> (r matches Ok(id) && id == old(self)@.next_board_id
                    && final(self)@.boards =~= old(self)@.boards.push((BoardModel {
                        id: old(self)@.next_board_id,
                        name: name@,
                        description: description@,
                        color: color,
                    }))
                    && final(self)@.next_board_id == old(self)@.next_board_id + 1),
    {
        if let Some(_i) = self.find_board_named(&name) {
            return Err(CreateBoardError::NameTaken);
        }
        if self.next_board_id == i64::MAX {
            return Err(CreateBoardError::Full);
        }
        let id = self.next_board_id;
        let ghost gname = name@;
        let ghost gdesc = description@;
        self.next_board_id = id + 1;
        self.boards.push(Board { id, name, description, color });
        proof {
            let pre = old(self)@;
            let post = self@;
            assert(post.posts =~= pre.posts);
            assert(post.images =~= pre.images);
            assert(post.boards =~= pre.boards.push((BoardModel {
                id: pre.next_board_id,
                name: gname,
                description: gdesc,
                color: color,
            })));
            assert forall|i: int, j: int|
                #![trigger post.boards[i], post.boards[j]]
                0 <= i < j < post.boards.len() implies post.boards[i].id < post.boards[j].id
                    && post.boards[i].name != post.boards[j].name by {
                if j < pre.boards.len() {
                    assert(pre.boards[i].id < pre.boards[j].id);
                    assert(pre.boards[i].name != pre.boards[j].name);
                } else {
                    assert(post.boards[i] == pre.boards[i]);
                    assert(pre.boards[i].id < pre.next_board_id);
                }
            }
        }
        Ok(id)
    }

    /// All boards, in creation order (ascending id): the stable listing.
    pub fn list_boards(&self) -> (r: Vec<Board>)
        ensures
            r@.map_values(|b: Board| b@) =~= self@.boards,
    {
        let n = self.boards.len();
        let mut out: Vec<Board> = Vec::new();
        let mut i: usize = 0;
        while i < n
            invariant
                n == self.boards.len(),
                i <= n,
                out@.len() == i,
                forall|k: int| 0 <= k < i ==> (#[trigger] out@[k])@ == self@.boards[k],
            decreases n - i,
        {
            let b = &self.boards[i];
            out.push(Board {
                id: b.id,
                name: b.name.clone(),
                description: b.description.clone(),
                color: b.color,
            });
            i += 1;
        }
        assert(out@.map_values(|b: Board| b@) =~= self@.boards);
        out
    }

    /// The board with this name, or `None` when no board has it.
    pub fn get_board_by_name(&self, name: &String) -> (r: Option<Board>)
        ensures
            match r {
                Some(b) => self@.boards.contains(b@) && b@.name == name@,
                None => !self@.has_board_named(name@),
            },
    {
        match self.find_board_named(name) {
            Some(i) => {
                let b = &self.boards[i];
                let copy = Board {
                    id: b.id,
                    name: b.name.clone(),
                    description: b.description.clone(),
                    color: b.color,
                };
                assert(copy@ =~= self@.boards[i as int]);
                Some(copy)
            },
            None => None,
        }
    }

    /// Rewrites the named fields of the board with `board.id`. Updating a
    /// board that does not exist changes nothing and reports success, as
    /// a zero-row storage update would; renaming a board to a name held
    /// by a different board is the uniqueness conflict.
    pub fn update_board(&mut self, board: Board) -> (r: Result<(), UpdateBoardError>)
        requires
            old(self)@.wf(),
        ensures
            final(self)@.wf(),
            final(self)@.posts =~= old(self)@.posts,
            final(self)@.images =~= old(self)@.images,
            final(self)@.next_post_id == old(self)@.next_post_id,
            final(self)@.next_board_id == old(self)@.next_board_id,
            !old(self)@.has_board_id(board.id) ==> r is Ok && final(self)@ =~= old(self)@,
            forall|i: int| 0 <= i < old(self)@.boards.len()
                && (#[trigger] old(self)@.boards[i]).id == board.id ==> {
                let conflict = exists|j: int| 0 <= j < old(self)@.boards.len() && j != i
                    && (#[trigger] old(self)@.boards[j]).name == board.name@;
                if conflict {
                    r matches Err(UpdateBoardError::NameTaken) && final(self)@ =~= old(self)@
                } else {
                    r is Ok && final(self)@.boards =~= old(self)@.boards.update(i, board@)
                }
            },
    {
        let idx = match self.find_board_by_id(board.id) {
            Some(i) => i,
            None => {
                return Ok(());
            },
        };
        let n = self.boards.len();
        let mut j: usize = 0;
        while j < n
            invariant
                self@ == old(self)@,
                self@.wf(),
                n == self.boards.len(),
                j <= n,
                idx < n,
                self@.boards[idx as int].id == board.id,
                forall|k: int| 0 <= k < j && k != idx
                    ==> (#[trigger] self@.boards[k]).name != board.name@,
            decreases n - j,
        {
            if j != idx && self.boards[j].name == board.name {
                proof {
                    let pre = self@;
                    let i0 = idx as int;
                    assert forall|i: int| 0 <= i < pre.boards.len()
                        && (#[trigger] pre.boards[i]).id == board.id implies i == i0 by {
                        if i < i0 {
                            assert(pre.boards[i].id < pre.boards[i0].id);
                        } else if i0 < i {
                            assert(pre.boards[i0].id < pre.boards[i].id);
                        }
                    }
                    assert(0 <= j < pre.boards.len() && j != i0
                        && (#[trigger] pre.boards[j as int]).name == board.name@);
                }
                return Err(UpdateBoardError::NameTaken);
            }
            j += 1;
        }
        let ghost pre = self@;
        let ghost i0 = idx as int;
        let ghost bm = board@;
        proof {
            assert forall|i: int| 0 <= i < pre.boards.len()
                && (#[trigger] pre.boards[i]).id == board.id implies i == i0 by {
                if i < i0 {
                    assert(pre.boards[i].id < pre.boards[i0].id);
                } else if i0 < i {
                    assert(pre.boards[i0].id < pre.boards[i].id);
                }
            }
        }
        self.boards.set(idx, board);
        proof {
            let post = self@;
            assert(post.posts =~= pre.posts);
            assert(post.images =~= pre.images);
            assert(post.boards =~= pre.boards.update(i0, bm));
            assert forall|i: int, j2: int|
                #![trigger post.boards[i], post.boards[j2]]
                0 <= i < j2 < post.boards.len() implies post.boards[i].id < post.boards[j2].id
                    && post.boards[i].name != post.boards[j2].name by {
                assert(pre.boards[i].id < pre.boards[j2].id);
                assert(pre.boards[i].name != pre.boards[j2].name);
                if i == i0 {
                    assert(post.boards[i].id == pre.boards[i].id);
                    assert(post.boards[j2] == pre.boards[j2]);
                } else if j2 == i0 {
                    assert(post.boards[i] == pre.boards[i]);
                    assert(post.boards[j2].id == pre.boards[j2].id);
                }
            }
        }
        Ok(())
    }

    /// Removes the board with this id, if any, and reports whether one
    /// was removed. Its posts are kept: board deletion does not cascade.
    pub fn delete_board(&mut self, id: i64) -> (removed: bool)
        requires
            old(self)@.wf(),
        ensures
            final(self)@.wf(),
            final(self)@.posts =~= old(self)@.posts,
            final(self)@.images =~= old(self)@.images,
            final(self)@.next_post_id == old(self)@.next_post_id,
            final(self)@.next_board_id == old(self)@.next_board_id,
            !old(self)@.has_board_id(id) ==> !removed && final(self)@ =~= old(self)@,
            forall|i: int| 0 <= i < old(self)@.boards.len()
                && (#[trigger] old(self)@.boards[i]).id == id
                ==> removed && final(self)@.boards =~= old(self)@.boards.remove(i),
    {
        let idx = match self.find_board_by_id(id) {
            Some(i) => i,
            None => {
                return false;
            },
        };
        let ghost pre = self@;
        let ghost i0 = idx as int;
        proof {
            assert forall|i: int| 0 <= i < pre.boards.len()
                && (#[trigger] pre.boards[i]).id == id implies i == i0 by {
                if i < i0 {
                    assert(pre.boards[i].id < pre.boards[i0].id);
                } else if i0 < i {
                    assert(pre.boards[i0].id < pre.boards[i].id);
                }
            }
        }
        self.boards.remove(idx);
        proof {
            let post = self@;
            assert(post.posts =~= pre.posts);
            assert(post.images =~= pre.images);
            assert(post.boards =~= pre.boards.remove(i0));
            assert forall|i: int, j: int|
                #![trigger post.boards[i], post.boards[j]]
                0 <= i < j < post.boards.len() implies post.boards[i].id < post.boards[j].id
                    && post.boards[i].name != post.boards[j].name by {
                let pi = if i < i0 { i } else { i + 1 };
                let pj = if j < i0 { j } else { j + 1 };
                assert(post.boards[i] == pre.boards[pi]);
                assert(post.boards[j] == pre.boards[pj]);
                assert(pre.boards[pi].id < pre.boards[pj].id);
                assert(pre.boards[pi].name != pre.boards[pj].name);
            }
        }
        true
    }

    /// Replays a board row read back from durable storage. The row is
    /// taken only if its id is at least the next free one (rows arrive
    /// in ascending id order) and its name is fresh; the id counter
    /// moves past it. A row that does not fit is refused and changes
    /// nothing.
    pub fn restore_board(&mut self, b: Board) -> (taken: bool)
        requires
            old(self)@.wf(),
        ensures
            final(self)@.wf(),
            final(self)@.posts =~= old(self)@.posts,
            final(self)@.images =~= old(self)@.images,
            final(self)@.next_post_id == old(self)@.next_post_id,
            taken == (b.id >= old(self)@.next_board_id && b.id < i64::MAX
                && !old(self)@.has_board_named(b.name@)),
            taken ==> final(self)@.boards =~= old(self)@.boards.push(b@)
                && final(self)@.next_board_id == b.id + 1,
            !taken ==> final(self)@ =~= old(self)@,
    {
        if b.id < self.next_board_id || b.id == i64::MAX {
            return false;
        }
        if let Some(_i) = self.find_board_named(&b.name) {
            return false;
        }
        let ghost pre = self@;
        let ghost bm = b@;
        self.next_board_id = b.id + 1;
        self.boards.push(b);
        proof {
            let post = self@;
            assert(post.posts =~= pre.posts);
            assert(post.images =~= pre.images);
            assert(post.boards =~= pre.boards.push(bm));
            assert forall|i: int, j: int|
                #![trigger post.boards[i], post.boards[j]]
                0 <= i < j < post.boards.len() implies post.boards[i].id < post.boards[j].id
                    && post.boards[i].name != post.boards[j].name by {
                if j < pre.boards.len() {
                    assert(pre.boards[i].id < pre.boards[j].id);
                    assert(pre.boards[i].name != pre.boards[j].name);
                } else {
                    assert(post.boards[i] == pre.boards[i]);
                    assert(pre.boards[i].id < pre.next_board_id);
                }
            }
        }
        true
    }

    /// Replays a post row read back from durable storage. The row is
    /// taken only if its id is at least the next free one, its time is
    /// representable, and its image name (if any) was not seen yet; the
    /// image store is then recorded as holding that file. A row that
    /// does not fit is refused and changes nothing.
    pub fn restore_post(&mut self, p: PostRecord) -> (taken: bool)
        requires
            old(self)@.wf(),
        ensures
            final(self)@.wf(),
            final(self)@.boards =~= old(self)@.boards,
            final(self)@.next_board_id == old(self)@.next_board_id,
            taken == (p.id >= old(self)@.next_post_id && p.id < u64::MAX
                && timestamp_in_range(p.time as int)
                && (p.image matches Some(n) ==> !old(self)@.has_image(n@))),
            taken ==> final(self)@.posts =~= old(self)@.posts.push(p@)
                && final(self)@.next_post_id == p.id + 1
                && (match p.image {
                    Some(n) => final(self)@.images =~= old(self)@.images.push(n@),
                    None => final(self)@.images =~= old(self)@.images,
                }),
            !taken ==> final(self)@ =~= old(self)@,
    {
        if p.id < self.next_post_id || p.id == u64::MAX {
            return false;
        }
        if p.time < TS_MIN || p.time > TS_MAX {
            return false;
        }
        let PostRecord { id, content, image, ip, whois, reply, board, time } = p;
        match image {
            Some(name) => {
                if self.has_image_file(&name) {
                    return false;
                }
                let stored = clone_string(&name);
                self.push_image(name);
                self.push_post(id, content, Some(stored), ip, whois, reply, board, time);
            },
            None => {
                self.push_post(id, content, None, ip, whois, reply, board, time);
            },
        }
        true
    }

    /// Whether the image store holds a file of this name. This is the
    /// executable form of the freshness that `finish_create_post` asks
    /// of a written filename: a caller tests it before reporting a
    /// create-only write as successful.
    pub fn has_image_file(&self, name: &String) -> (r: bool)
        ensures
            r == self@.has_image(name@),
    {
        let n = self.images.len();
        let mut i: usize = 0;
        while i < n
            invariant
                n == self.images.len(),
                i <= n,
                forall|k: int| 0 <= k < i ==> #[trigger] self@.images[k] != name@,
            decreases n - i,
        {
            if self.images[i] == *name {
                assert(self@.images[i as int] == name@);
                return true;
            }
            i += 1;
        }
        false
    }

    /// Index of the post with this id, if any.
    fn find_post_by_id(&self, id: u64) -> (r: Option<usize>)
        ensures
            match r {
                Some(i) => i < self@.posts.len() && self@.posts[i as int].id == id,
                None => !self@.has_post_id(id),
            },
    {
        let n = self.posts.len();
        let mut i: usize = 0;
        while i < n
            invariant
                n == self.posts.len(),
                i <= n,
                forall|k: int| 0 <= k < i ==> (#[trigger] self@.posts[k]).id != id,
            decreases n - i,
        {
            if self.posts[i].id == id {
                return Some(i);
            }
            i += 1;
        }
        None
    }

    /// Records that the image store now holds a file of this name.
    fn push_image(&mut self, name: String)
        requires
            old(self)@.wf(),
            !old(self)@.has_image(name@),
        ensures
            final(self)@.wf(),
            final(self)@.boards =~= old(self)@.boards,
            final(self)@.posts =~= old(self)@.posts,
            final(self)@.images =~= old(self)@.images.push(name@),
            final(self)@.next_post_id == old(self)@.next_post_id,
            final(self)@.next_board_id == old(self)@.next_board_id,
            final(self)@.has_image(name@),
            forall|i: int| 0 <= i < final(self)@.posts.len()
                ==> (#[trigger] final(self)@.posts[i]).image != Some(name@),
    {
        let ghost pre = self@;
        let ghost gname = name@;
        self.images.push(name);
        proof {
            let post = self@;
            assert(post.boards =~= pre.boards);
            assert(post.posts =~= pre.posts);
            assert(post.images =~= pre.images.push(gname));
            assert(post.images[post.images.len() - 1] == gname);
            assert forall|i: int| 0 <= i < post.posts.len()
                implies (#[trigger] post.posts[i]).image != Some(gname) by {
                if post.posts[i].image is Some {
                    let n = post.posts[i].image->0;
                    assert(pre.posts[i].image == Some(n));
                    let w = choose|k: int| 0 <= k < pre.images.len()
                        && #[trigger] pre.images[k] == n;
                    assert(pre.images[w] == n);
                }
            }
            assert forall|i: int| 0 <= i < post.posts.len()
                implies ((#[trigger] post.posts[i]).image matches Some(n)
                    ==> post.has_image(n)) by {
                if post.posts[i].image is Some {
                    let n = post.posts[i].image->0;
                    assert(pre.posts[i].image == Some(n));
                    let w = choose|k: int| 0 <= k < pre.images.len()
                        && #[trigger] pre.images[k] == n;
                    assert(post.images[w] == n);
                }
            }
        }
    }

    /// Appends a post row under `id` — at least the next id, so above
    /// every stored row — and moves the id counter past it.
    fn push_post(&mut self, id: u64, content: String, image: Option<String>, ip: String,
        whois: Option<WhoisResult>, reply: Option<u64>, board: i64, time: i64)
        requires
            old(self)@.wf(),
            id >= old(self)@.next_post_id,
            id < u64::MAX,
            timestamp_in_range(time as int),
            match image {
                Some(n) => old(self)@.has_image(n@) && (forall|i: int|
                    0 <= i < old(self)@.posts.len()
                        ==> (#[trigger] old(self)@.posts[i]).image != Some(n@)),
                None => true,
            },
        ensures
            final(self)@.wf(),
            final(self)@.boards =~= old(self)@.boards,
            final(self)@.images =~= old(self)@.images,
            final(self)@.next_board_id == old(self)@.next_board_id,
            final(self)@.next_post_id == id + 1,
            final(self)@.posts =~= old(self)@.posts.push((PostModel {
                id: id,
                content: content@,
                image: crate::models::image_model(image),
                ip: ip@,
                whois: whois_model(whois),
                reply: reply,
                board: board,
                time: time,
            })),
    {
        let ghost pre = self@;
        let ghost gimage = crate::models::image_model(image);
        let ghost rec = (PostModel {
            id: id,
            content: content@,
            image: gimage,
            ip: ip@,
            whois: whois_model(whois),
            reply: reply,
            board: board,
            time: time,
        });
        self.next_post_id = id + 1;
        self.posts.push(PostRecord { id, content, image, ip, whois, reply, board, time });
        proof {
            let post = self@;
            assert(post.boards =~= pre.boards);
            assert(post.images =~= pre.images);
            assert(post.posts =~= pre.posts.push(rec));
            assert forall|i: int, j: int|
                #![trigger post.posts[i], post.posts[j]]
                0 <= i < j < post.posts.len() implies post.posts[i].id < post.posts[j].id
                    && (post.posts[i].image matches Some(n)
                        ==> post.posts[j].image matches Some(m) ==> n != m) by {
                if j < pre.posts.len() {
                    assert(pre.posts[i].id < pre.posts[j].id);
                } else {
                    assert(post.posts[i] == pre.posts[i]);
                    assert(pre.posts[i].id < pre.next_post_id);
                }
            }
            assert forall|i: int| 0 <= i < post.posts.len()
                implies ((#[trigger] post.posts[i]).image matches Some(n)
                    ==> post.has_image(n)) by {
                if i < pre.posts.len() && post.posts[i].image is Some {
                    let n = post.posts[i].image->0;
                    assert(pre.posts[i].image == Some(n));
                    let w = choose|k: int| 0 <= k < pre.images.len()
                        && #[trigger] pre.images[k] == n;
                    assert(post.images[w] == n);
                }
            }
        }
    }

    /// Validates a creation request and either completes it (no image)
    /// or hands back the plan whose image write must happen first.
    /// The board is resolved by name; a `reply` naming no existing post
    /// is the distinct `ReplyNotFound` result and creates no row.
    pub fn create_post(&mut self, board_name: &String, content: String, ip: String,
        whois: Option<WhoisResult>, reply: Option<u64>, image: Option<InsertImage>, now: i64)
        -> (r: CreateStep)
        requires
            old(self)@.wf(),
            timestamp_in_range(now as int),
        ensures
            final(self)@.wf(),
            final(self)@.boards =~= old(self)@.boards,
            final(self)@.images =~= old(self)@.images,
            final(self)@.next_board_id == old(self)@.next_board_id,
            final(self)@.next_post_id >= old(self)@.next_post_id,
            !old(self)@.has_board_named(board_name@)
                ==> (r matches CreateStep::Done(Err(CreatePostError::BoardNotFound))
                    && final(self)@ =~= old(self)@),
            old(self)@.has_board_named(board_name@) && !old(self)@.reply_ok(reply)
                ==> (r matches CreateStep::Done(Err(CreatePostError::ReplyNotFound))
                    && final(self)@ =~= old(self)@),
            old(self)@.has_board_named(board_name@) && old(self)@.reply_ok(reply)
                && old(self)@.next_post_id == u64::MAX
                ==> (r matches CreateStep::Done(Err(CreatePostError::Full))
                    && final(self)@ =~= old(self)@),
            old(self)@.has_board_named(board_name@) && old(self)@.reply_ok(reply)
                && old(self)@.next_post_id < u64::MAX && image is None
                ==> (r matches CreateStep::Done(Ok(id)) && id == old(self)@.next_post_id
                    && final(self)@.next_post_id == old(self)@.next_post_id + 1
                    && final(self)@.posts =~= old(self)@.posts.push((PostModel {
                        id: old(self)@.next_post_id,
                        content: content@,
                        image: None,
                        ip: ip@,
                        whois: whois_model(whois),
                        reply: reply,
                        board: old(self)@.board_id_named(board_name@),
                        time: now,
                    }))),
            old(self)@.has_board_named(board_name@) && old(self)@.reply_ok(reply)
                && old(self)@.next_post_id < u64::MAX
                ==> (image matches Some(img)
                    ==> r matches CreateStep::NeedImageWrite(plan)
                    && final(self)@ =~= old(self)@
                    && plan.board_id == old(self)@.board_id_named(board_name@)
                    && plan.content@ == content@
                    && plan.ip@ == ip@
                    && whois_model(plan.whois) == whois_model(whois)
                    && plan.reply == reply
                    && plan.image.bytes@ == img.bytes@
                    && plan.image.filename@ == img.filename@
                    && plan.time == now),
    {
        let bidx = match self.find_board_named(board_name) {
            Some(i) => i,
            None => {
                return CreateStep::Done(Err(CreatePostError::BoardNotFound));
            },
        };
        if let Some(rid) = reply {
            if self.find_post_by_id(rid).is_none() {
                return CreateStep::Done(Err(CreatePostError::ReplyNotFound));
            }
        }
        if self.next_post_id == u64::MAX {
            return CreateStep::Done(Err(CreatePostError::Full));
        }
        let bid = self.boards[bidx].id;
        proof {
            let m = self@;
            let ci = m.board_index_named(board_name@);
            assert(0 <= ci < m.boards.len() && m.boards[ci].name == board_name@);
            if ci != bidx as int {
                if ci < bidx as int {
                    assert(m.boards[ci].name != m.boards[bidx as int].name);
                } else {
                    assert(m.boards[bidx as int].name != m.boards[ci].name);
                }
            }
            assert(m.board_id_named(board_name@) == bid);
        }
        match image {
            Some(img) => {
                CreateStep::NeedImageWrite(PostPlan {
                    board_id: bid,
                    content,
                    ip,
                    whois,
                    reply,
                    image: img,
                    time: now,
                })
            },
            None => {
                let id = self.next_post_id;
                self.push_post(id, content, None, ip, whois, reply, bid, now);
                CreateStep::Done(Ok(id))
            },
        }
    }

    /// Completes a planned creation once the caller has attempted the
    /// create-only image write. If the write failed, no row is inserted
    /// and the store is exactly as it was: a reader can never observe a
    /// row pointing at a file that was not written.
    pub fn finish_create_post(&mut self, plan: PostPlan, written: bool)
        -> (r: Result<u64, CreatePostError>)
        requires
            old(self)@.wf(),
            timestamp_in_range(plan.time as int),
            written ==> !old(self)@.has_image(plan.image.filename@),
        ensures
            final(self)@.wf(),
            final(self)@.boards =~= old(self)@.boards,
            final(self)@.next_board_id == old(self)@.next_board_id,
            final(self)@.next_post_id >= old(self)@.next_post_id,
            !written ==> (r matches Err(CreatePostError::ImageWrite)
                && final(self)@ =~= old(self)@),
            written && old(self)@.next_post_id == u64::MAX
                ==> (r matches Err(CreatePostError::Full) && final(self)@ =~= old(self)@),
            written && old(self)@.next_post_id < u64::MAX
                ==> (r matches Ok(id) && id == old(self)@.next_post_id
                    && final(self)@.next_post_id == old(self)@.next_post_id + 1
                    && final(self)@.images =~= old(self)@.images.push(plan.image.filename@)
                    && final(self)@.posts =~= old(self)@.posts.push((PostModel {
                        id: old(self)@.next_post_id,
                        content: plan.content@,
                        image: Some(plan.image.filename@),
                        ip: plan.ip@,
                        whois: whois_model(plan.whois),
                        reply: plan.reply,
                        board: plan.board_id,
                        time: plan.time,
                    }))),
    {
        if !written {
            return Err(CreatePostError::ImageWrite);
        }
        if self.next_post_id == u64::MAX {
            return Err(CreatePostError::Full);
        }
        let PostPlan { board_id, content, ip, whois, reply, image, time } = plan;
        let InsertImage { bytes: _bytes, filename } = image;
        let stored = clone_string(&filename);
        self.push_image(filename);
        let id = self.next_post_id;
        self.push_post(id, content, Some(stored), ip, whois, reply, board_id, time);
        Ok(id)
    }

    /// Deletes the post with this id. `None` says no such row existed
    /// (and nothing changed); `Some(image)` says the row was removed and
    /// carries the filename whose file must now be removed, if any.
    pub fn delete_post(&mut self, id: u64) -> (r: Option<Option<String>>)
        requires
            old(self)@.wf(),
        ensures
            final(self)@.wf(),
            final(self)@.boards =~= old(self)@.boards,
            final(self)@.next_board_id == old(self)@.next_board_id,
            final(self)@.next_post_id == old(self)@.next_post_id,
            !old(self)@.has_post_id(id) ==> (r is None && final(self)@ =~= old(self)@),
            old(self)@.has_post_id(id) ==> r is Some,
            forall|i: int| 0 <= i < old(self)@.posts.len()
                && (#[trigger] old(self)@.posts[i]).id == id ==> {
                &&& (r matches Some(img) && crate::models::image_model(img)
                    == old(self)@.posts[i].image)
                &&& final(self)@.posts =~= old(self)@.posts.remove(i)
                &&& (old(self)@.posts[i].image is None
                    ==> final(self)@.images =~= old(self)@.images)
                &&& (old(self)@.posts[i].image matches Some(n)
                    ==> !final(self)@.has_image(n)
                        && (exists|k: int| 0 <= k < old(self)@.images.len()
                            && #[trigger] old(self)@.images[k] == n
                            && final(self)@.images =~= old(self)@.images.remove(k)))
            },
    {
        let idx = match self.find_post_by_id(id) {
            Some(i) => i,
            None => {
                return None;
            },
        };
        let ghost pre = self@;
        let ghost i0 = idx as int;
        proof {
            assert forall|i: int| 0 <= i < pre.posts.len()
                && (#[trigger] pre.posts[i]).id == id implies i == i0 by {
                if i < i0 {
                    assert(pre.posts[i].id < pre.posts[i0].id);
                } else if i0 < i {
                    assert(pre.posts[i0].id < pre.posts[i].id);
                }
            }
        }
        let rec = self.posts.remove(idx);
        proof {
            let post = self@;
            assert(post.boards =~= pre.boards);
            assert(post.images =~= pre.images);
            assert(post.posts =~= pre.posts.remove(i0));
            assert(rec@ == pre.posts[i0]);
            assert forall|i: int, j: int|
                #![trigger post.posts[i], post.posts[j]]
                0 <= i < j < post.posts.len() implies post.posts[i].id < post.posts[j].id
                    && (post.posts[i].image matches Some(n)
                        ==> post.posts[j].image matches Some(m) ==> n != m) by {
                let pi = if i < i0 { i } else { i + 1 };
                let pj = if j < i0 { j } else { j + 1 };
                assert(post.posts[i] == pre.posts[pi]);
                assert(post.posts[j] == pre.posts[pj]);
                assert(pre.posts[pi].id < pre.posts[pj].id);
            }
        }
        let image = rec.image;
        match &image {
            None => {
                proof {
                    let post = self@;
                    assert forall|i: int| 0 <= i < post.posts.len()
                        implies ((#[trigger] post.posts[i]).image matches Some(n)
                            ==> post.has_image(n)) by {
                        let pi = if i < i0 { i } else { i + 1 };
                        assert(post.posts[i] == pre.posts[pi]);
                        if pre.posts[pi].image is Some {
                            let n = pre.posts[pi].image->0;
                            let w = choose|k: int| 0 <= k < pre.images.len()
                                && #[trigger] pre.images[k] == n;
                            assert(post.images[w] == n);
                        }
                    }
                }
                Some(image)
            },
            Some(name) => {
                let ghost gname = name@;
                proof {
                    assert(pre.posts[i0].image == Some(gname));
                    assert(pre.has_image(gname));
                }
                let k = self.find_image_idx(name);
                let ghost k0 = k as int;
                let ghost mid = self@;
                self.images.remove(k);
                proof {
                    let post = self@;
                    assert(post.boards =~= mid.boards);
                    assert(post.posts =~= mid.posts);
                    assert(post.images =~= mid.images.remove(k0));
                    assert forall|a: int, b: int|
                        #![trigger post.images[a], post.images[b]]
                        0 <= a < b < post.images.len()
                        implies post.images[a] != post.images[b] by {
                        let pa = if a < k0 { a } else { a + 1 };
                        let pb = if b < k0 { b } else { b + 1 };
                        assert(post.images[a] == mid.images[pa]);
                        assert(post.images[b] == mid.images[pb]);
                        assert(mid.images[pa] != mid.images[pb]);
                    }
                    assert forall|i: int| 0 <= i < post.posts.len()
                        implies ((#[trigger] post.posts[i]).image matches Some(n)
                            ==> post.has_image(n)) by {
                        let pi = if i < i0 { i } else { i + 1 };
                        assert(post.posts[i] == pre.posts[pi]);
                        if pre.posts[pi].image is Some {
                            let n = pre.posts[pi].image->0;
                            assert(pi != i0);
                            if pi < i0 {
                                assert(pre.posts[pi].id < pre.posts[i0].id);
                            } else {
                                assert(pre.posts[i0].id < pre.posts[pi].id);
                            }
                            assert(n != gname);
                            let w = choose|c: int| 0 <= c < pre.images.len()
                                && #[trigger] pre.images[c] == n;
                            assert(w != k0);
                            let w2 = if w < k0 { w } else { w - 1 };
                            assert(post.images[w2] == n);
                        }
                    }
                    assert(!self@.has_image(gname)) by {
                        if self@.has_image(gname) {
                            let w = choose|c: int| 0 <= c < post.images.len()
                                && #[trigger] post.images[c] == gname;
                            let pw = if w < k0 { w } else { w + 1 };
                            assert(mid.images[pw] == gname);
                            assert(mid.images[k0] == gname);
                        }
                    }
                }
                Some(image)
            },
        }
    }

    /// Index of this filename in the image store; callable only when the
    /// name is known to be stored.
    fn find_image_idx(&self, name: &String) -> (r: usize)
        requires
            self@.has_image(name@),
        ensures
            r < self@.images.len(),
            self@.images[r as int] == name@,
    {
        let n = self.images.len();
        let mut i: usize = 0;
        while i < n
            invariant
                self@.has_image(name@),
                n == self.images.len(),
                i <= n,
                forall|k: int| 0 <= k < i ==> #[trigger] self@.images[k] != name@,
            decreases n - i,
        {
            if self.images[i] == *name {
                return i;
            }
            i += 1;
        }
        proof {
            let w = choose|k: int| 0 <= k < self@.images.len()
                && #[trigger] self@.images[k] == name@;
            assert(false);
        }
        0
    }
}

/// A copy of a string with the same characters.
fn clone_string(s: &String) -> (r: String)
    ensures
        r@ == s@,
{
    s.clone()
}

impl Store {
    /// The read view of the stored post at index `i`, its reply target
    /// resolved through the join over posts and boards.
    fn listed_post(&self, i: usize) -> (p: Post)
        requires
            self@.wf(),
            i < self@.posts.len(),
        ensures
            p@ =~= self@.listed_view(self@.posts[i as int]),
    {
        proof {
            reveal(StoreModel::resolved_reply);
            reveal(StoreModel::listed_view);
        }
        let rec = &self.posts[i];
        let reply: Option<ReplyTo> = match rec.reply {
            None => None,
            Some(rid) => {
                match self.find_post_by_id(rid) {
                    None => None,
                    Some(ti) => {
                        let target_board = self.posts[ti].board;
                        let target_time = self.posts[ti].time;
                        proof {
                            let m = self@;
                            let ci = choose|c: int| 0 <= c < m.posts.len()
                                && (#[trigger] m.posts[c]).id == rid;
                            if ci != ti as int {
                                if ci < ti as int {
                                    assert(m.posts[ci].id < m.posts[ti as int].id);
                                } else {
                                    assert(m.posts[ti as int].id < m.posts[ci].id);
                                }
                            }
                            assert(m.post_by_id(rid) == m.posts[ti as int]);
                        }
                        match self.find_board_by_id(target_board) {
                            None => None,
                            Some(bi) => {
                                proof {
                                    let m = self@;
                                    let ci = choose|c: int| 0 <= c < m.boards.len()
                                        && (#[trigger] m.boards[c]).id == target_board;
                                    if ci != bi as int {
                                        if ci < bi as int {
                                            assert(m.boards[ci].id < m.boards[bi as int].id);
                                        } else {
                                            assert(m.boards[bi as int].id < m.boards[ci].id);
                                        }
                                    }
                                    assert(m.board_by_id(target_board) == m.boards[bi as int]);
                                }
                                Some(ReplyTo {
                                    id: rid,
                                    time: target_time,
                                    board: target_board,
                                    board_name: clone_string(&self.boards[bi].name),
                                })
                            },
                        }
                    },
                }
            },
        };
        let rec = &self.posts[i];
        let image = match &rec.image {
            None => None,
            Some(n) => Some(clone_string(n)),
        };
        let whois = match &rec.whois {
            None => None,
            Some(w) => Some(WhoisResult { asn: w.asn, mnt: clone_string(&w.mnt) }),
        };
        let p = Post {
            id: rec.id,
            content: clone_string(&rec.content),
            image,
            ip: clone_string(&rec.ip),
            whois,
            reply,
            time: rec.time,
            board: rec.board,
        };
        assert(p@ =~= self@.listed_view(self@.posts[i as int]));
        p
    }

    /// The posts of `board` whose time lies in `start ..= end` (both
    /// bounds inclusive), each with its resolved reply projection,
    /// ordered newest first. The result is exactly `spec_listing`: every
    /// matching stored post appears once, nothing else does, in
    /// descending time order (equal seconds: latest insertion first).
    pub fn list_posts_in_range(&self, board: i64, start: i64, end: i64) -> (r: Vec<Post>)
        requires
            self@.wf(),
        ensures
            r@.map_values(|p: Post| p@) == spec_listing(self@, board, start, end),
    {
        let ghost f = |p: Post| p@;
        let n = self.posts.len();
        let mut out: Vec<Post> = Vec::new();
        let mut i: usize = 0;
        assert(out@.map_values(f) =~= listing_upto(self@, board, start, end, 0));
        while i < n
            invariant
                self@.wf(),
                n == self@.posts.len(),
                i <= n,
                f == (|p: Post| p@),
                out@.map_values(f) == listing_upto(self@, board, start, end, i as int),
            decreases n - i,
        {
            let rec_board = self.posts[i].board;
            let rec_time = self.posts[i].time;
            if rec_board == board && start <= rec_time && rec_time <= end {
                let v = self.listed_post(i);
                let ghost gv = v@;
                let ghost pre_out = out@;
                let mut pos: usize = 0;
                while pos < out.len() && out[pos].time > rec_time
                    invariant
                        out@ == pre_out,
                        pos <= out@.len(),
                        forall|k: int| 0 <= k < pos ==> (#[trigger] out@[k])@.time > rec_time,
                    decreases out@.len() - pos,
                {
                    pos += 1;
                }
                proof {
                    lemma_listed_view_fields(self@, self@.posts[i as int]);
                    assert(gv.time == rec_time);
                }
                out.insert(pos, v);
                proof {
                    assert(out@ == pre_out.insert(pos as int, v));
                    lemma_map_values_insert(pre_out, v, pos as int);
                    assert forall|k: int| 0 <= k < pos
                        implies (#[trigger] pre_out.map_values(f)[k]).time > gv.time by {
                        assert(pre_out[k]@.time > rec_time);
                    }
                    if (pos as int) < pre_out.len() {
                        assert(pre_out.map_values(f)[pos as int].time <= gv.time);
                    }
                    lemma_insert_newest_first_position(pre_out.map_values(f), gv, pos as int);
                    assert(out@.map_values(f)
                        =~= listing_upto(self@, board, start, end, i + 1));
                }
            } else {
                assert(out@.map_values(f) == listing_upto(self@, board, start, end, i + 1));
            }
            i += 1;
        }
        assert(out@.map_values(f) =~= spec_listing(self@, board, start, end));
        out
    }
}

/// A post belongs to the listing of `board` over the inclusive time
/// window `start ..= end`.
pub open spec fn in_range_listing(p: PostModel, board: i64, start: i64, end: i64) -> bool {
    p.board == board && start <= p.time && p.time <= end
}

/// Places a view into a newest-first listing: before the first element
/// whose time is not later than its own.
pub open spec fn insert_newest_first(s: Seq<PostViewModel>, v: PostViewModel)
    -> Seq<PostViewModel>
    decreases s.len(),
{
    if s.len() == 0 {
        seq![v]
    } else if s[0].time > v.time {
        seq![s[0]] + insert_newest_first(s.drop_first(), v)
    } else {
        seq![v] + s
    }
}

/// The listing built from the first `n` stored posts.
pub open spec fn listing_upto(m: StoreModel, board: i64, start: i64, end: i64, n: int)
    -> Seq<PostViewModel>
    decreases n,
{
    if n <= 0 {
        Seq::empty()
    } else {
        let rest = listing_upto(m, board, start, end, n - 1);
        if in_range_listing(m.posts[n - 1], board, start, end) {
            insert_newest_first(rest, m.listed_view(m.posts[n - 1]))
        } else {
            rest
        }
    }
}

/// What a range listing returns: the views of exactly the posts of
/// `board` with time in `start ..= end`, newest first.
pub open spec fn spec_listing(m: StoreModel, board: i64, start: i64, end: i64)
    -> Seq<PostViewModel> {
    listing_upto(m, board, start, end, m.posts.len() as int)
}

/// Mapping to views commutes with insertion.
proof fn lemma_map_values_insert(s: Seq<Post>, v: Post, pos: int)
    requires
        0 <= pos <= s.len(),
    ensures
        s.insert(pos, v).map_values(|p: Post| p@)
            =~= s.map_values(|p: Post| p@).insert(pos, v@),
{
    s.insert_ensures(pos, v);
    s.map_values(|p: Post| p@).insert_ensures(pos, v@);
}

/// When everything before `pos` is strictly later than `v` and the
/// element at `pos` (if any) is not, `insert_newest_first` lands at `pos`.
proof fn lemma_insert_newest_first_position(s: Seq<PostViewModel>, v: PostViewModel, pos: int)
    requires
        0 <= pos <= s.len(),
        forall|k: int| 0 <= k < pos ==> (#[trigger] s[k]).time > v.time,
        pos == s.len() || s[pos].time <= v.time,
    ensures
        insert_newest_first(s, v) == s.insert(pos, v),
    decreases pos,
{
    if pos == 0 {
        if s.len() == 0 {
            assert(insert_newest_first(s, v) =~= s.insert(0, v));
        } else {
            assert(s[0].time <= v.time);
            assert((seq![v] + s) =~= s.insert(0, v));
        }
    } else {
        assert(s[0].time > v.time);
        let rest = s.drop_first();
        assert forall|k: int| 0 <= k < pos - 1 implies (#[trigger] rest[k]).time > v.time by {
            assert(rest[k] == s[k + 1]);
        }
        assert(pos - 1 == rest.len() || rest[pos - 1].time <= v.time);
        lemma_insert_newest_first_position(rest, v, pos - 1);
        assert((seq![s[0]] + rest.insert(pos - 1, v)) =~= s.insert(pos, v));
    }
}

/// A listed view keeps the row's id and time.

pub proof fn lemma_listed_view_fields(m: StoreModel, p: PostModel)
    ensures
        m.listed_view(p).id == p.id,
        m.listed_view(p).time == p.time,
{
    reveal(StoreModel::listed_view);
}

} // verus!
