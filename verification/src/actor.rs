//! The task protocol: the closed set of requests the persistence worker
//! serves, the matching replies, and the single dispatch function that
//! maps each request to its verified store transition.
//!
//! The worker loop itself — an unbounded intake queue drained strictly
//! in arrival order, one oneshot reply slot per request — is channel
//! plumbing and lives in the application shell. It calls `dispatch` for
//! each dequeued request, performs the returned effect (removing an
//! image file), and, when told `NeedImageWrite`, performs the create-only
//! file write and reports the outcome to `resume`. A request is fully
//! completed, side effects included, before the next is dequeued; a
//! failed request answers only its own caller and never stops the loop.

use vstd::prelude::*;
use crate::images::InsertImage;
use crate::models::{Board, Post};
use crate::store::{Store, PostPlan, CreateStep, CreatePostError, CreateBoardError,
    UpdateBoardError, spec_listing};
use crate::timestamps::timestamp_in_range;
use crate::whois::WhoisResult;

verus! {

/// The inputs of a post creation request.
#[derive(Clone)]
pub struct CreatePostArgs {
    pub board: String,
    pub content: String,
    pub ip: String,
    pub whois: Option<WhoisResult>,
    pub reply: Option<u64>,
    pub image: Option<InsertImage>,
}

/// One request of the task protocol; each kind carries exactly the
/// arguments it needs and answers with exactly one `Reply`.
#[derive(Clone)]
pub enum Request {
    CreatePost(CreatePostArgs),
    DeletePost { id: u64 },
    ListPostsInRange { board: i64, start: i64, end: i64 },
    ListBoards,
    GetBoardByName { name: String },
    CreateBoard { name: String, description: String, color: u32 },
    UpdateBoard { board: Board },
    DeleteBoard { id: i64 },
}

/// The reply to a request, one variant per request kind, plus the
/// opaque backend failure of the error taxonomy: the worker answers
/// `Failed` when durable storage fails a request after the transition —
/// `dispatch` itself never returns it, as its contract shows.
pub enum Reply {
    PostCreated(Result<u64, CreatePostError>),
    PostDeleted(bool),
    Posts(Vec<Post>),
    Boards(Vec<Board>),
    BoardFound(Option<Board>),
    BoardCreated(Result<i64, CreateBoardError>),
    BoardUpdated(Result<(), UpdateBoardError>),
    BoardDeleted,
    Failed,
}

/// A side effect the worker must perform after the transition: removing
/// a row's image file once its row is gone (row first, file second, so a
/// crash leaves at worst an orphaned file, never a dangling reference).
pub enum Effect {
    Nothing,
    RemoveFile(String),
}

/// A completed request: the reply owed to the caller and the effect
/// owed to the image store.
pub struct Outcome {
    pub reply: Reply,
    pub effect: Effect,
}

/// What dispatch decided: the request is done, or its image payload
/// must be written (create-only) before `resume` completes it.
pub enum Step {
    Done(Outcome),
    NeedImageWrite(PostPlan),
}

/// Serves one request of the task protocol against the store. `now` is
/// the actor-execution time that a created post is stamped with.
pub fn dispatch(store: &mut Store, req: Request, now: i64) -> (r: Step)
    requires
        old(store)@.wf(),
        timestamp_in_range(now as int),
    ensures
        final(store)@.wf(),
        final(store)@.next_post_id >= old(store)@.next_post_id,
        match req {
            Request::CreatePost(args) => {
                &&& !old(store)@.has_board_named(args.board@)
                    ==> (r matches Step::Done(o) && o.effect is Nothing
                        && (o.reply matches Reply::PostCreated(
                            Err(CreatePostError::BoardNotFound)))
                        && final(store)@ =~= old(store)@)
                &&& old(store)@.has_board_named(args.board@)
                        && !old(store)@.reply_ok(args.reply)
                    ==> (r matches Step::Done(o) && o.effect is Nothing
                        && (o.reply matches Reply::PostCreated(
                            Err(CreatePostError::ReplyNotFound)))
                        && final(store)@ =~= old(store)@)
                &&& old(store)@.has_board_named(args.board@)
                        && old(store)@.reply_ok(args.reply)
                        && old(store)@.next_post_id == u64::MAX
                    ==> (r matches Step::Done(o) && o.effect is Nothing
                        && (o.reply matches Reply::PostCreated(Err(CreatePostError::Full)))
                        && final(store)@ =~= old(store)@)
                &&& old(store)@.has_board_named(args.board@)
                        && old(store)@.reply_ok(args.reply)
                        && old(store)@.next_post_id < u64::MAX
                    ==> {
                    &&& args.image is None ==> (r matches Step::Done(o)
                        && o.effect is Nothing
                        && (o.reply matches Reply::PostCreated(Ok(id))
                        && id == old(store)@.next_post_id
                        && final(store)@.posts.len() == old(store)@.posts.len() + 1
                        && final(store)@.posts.last() == (crate::models::PostModel {
                            id: old(store)@.next_post_id,
                            content: args.content@,
                            image: None,
                            ip: args.ip@,
                            whois: crate::models::whois_model(args.whois),
                            reply: args.reply,
                            board: old(store)@.board_id_named(args.board@),
                            time: now,
                        })))
                    &&& args.image matches Some(img) ==> (r matches Step::NeedImageWrite(plan)
                        && final(store)@ =~= old(store)@
                        && plan.board_id == old(store)@.board_id_named(args.board@)
                        && plan.content@ == args.content@
                        && plan.ip@ == args.ip@
                        && crate::models::whois_model(plan.whois)
                            == crate::models::whois_model(args.whois)
                        && plan.reply == args.reply
                        && plan.image.bytes@ == img.bytes@
                        && plan.image.filename@ == img.filename@
                        && plan.time == now)
                }
            },
            Request::DeletePost { id } => {
                &&& r is Done
                &&& !old(store)@.has_post_id(id) ==> (r matches Step::Done(o)
                    && (o.reply matches Reply::PostDeleted(d) && !d)
                    && o.effect is Nothing
                    && final(store)@ =~= old(store)@)
                &&& forall|i: int| 0 <= i < old(store)@.posts.len()
                        && (#[trigger] old(store)@.posts[i]).id == id
                    ==> (r matches Step::Done(o)
                        && (o.reply matches Reply::PostDeleted(d) && d)
                        && final(store)@.posts =~= old(store)@.posts.remove(i)
                        && (match old(store)@.posts[i].image {
                            Some(n) => (o.effect matches Effect::RemoveFile(f) && f@ == n
                                && !final(store)@.has_image(n)),
                            None => o.effect is Nothing
                                && final(store)@.images =~= old(store)@.images,
                        }))
            },
            Request::ListPostsInRange { board, start, end } => (r matches Step::Done(o)
                && o.effect is Nothing
                && (o.reply matches Reply::Posts(ps)
                && ps@.map_values(|p: Post| p@) == spec_listing(old(store)@, board, start, end))
                && final(store)@ =~= old(store)@),
            Request::ListBoards => (r matches Step::Done(o)
                && o.effect is Nothing
                && (o.reply matches Reply::Boards(bs)
                && bs@.map_values(|b: Board| b@) =~= old(store)@.boards)
                && final(store)@ =~= old(store)@),
            Request::GetBoardByName { name } => (r matches Step::Done(o)
                && o.effect is Nothing
                && (o.reply matches Reply::BoardFound(found)
                && (match found {
                    Some(b) => old(store)@.boards.contains(b@) && b.name@ == name@,
                    None => !old(store)@.has_board_named(name@),
                }))
                && final(store)@ =~= old(store)@),
            Request::CreateBoard { name, description, color } => {
                &&& r is Done
                &&& (r matches Step::Done(o) ==> o.effect is Nothing
                    && o.reply is BoardCreated)
                &&& old(store)@.has_board_named(name@) ==> (r matches Step::Done(o)
                    && (o.reply matches Reply::BoardCreated(
                        Err(CreateBoardError::NameTaken)))
                    && final(store)@ =~= old(store)@)
                &&& !old(store)@.has_board_named(name@)
                        && old(store)@.next_board_id < i64::MAX
                    ==> (r matches Step::Done(o)
                        && (o.reply matches Reply::BoardCreated(Ok(id))
                        && id == old(store)@.next_board_id)
                        && final(store)@.boards =~= old(store)@.boards.push(
                            (crate::models::BoardModel {
                                id: old(store)@.next_board_id,
                                name: name@,
                                description: description@,
                                color: color,
                            }))
                        && final(store)@.posts =~= old(store)@.posts)
            },
            Request::UpdateBoard { board } => {
                &&& (r matches Step::Done(o) && o.effect is Nothing
                    && o.reply is BoardUpdated)
                &&& !old(store)@.has_board_id(board.id) ==> (r matches Step::Done(o)
                    && (o.reply matches Reply::BoardUpdated(res) && res is Ok)
                    && final(store)@ =~= old(store)@)
                &&& forall|i: int| 0 <= i < old(store)@.boards.len()
                        && (#[trigger] old(store)@.boards[i]).id == board.id ==> {
                    let conflict = exists|j: int| 0 <= j < old(store)@.boards.len()
                        && j != i && (#[trigger] old(store)@.boards[j]).name == board.name@;
                    if conflict {
                        r matches Step::Done(o)
                            && (o.reply matches Reply::BoardUpdated(
                                Err(UpdateBoardError::NameTaken)))
                            && final(store)@ =~= old(store)@
                    } else {
                        r matches Step::Done(o)
                            && (o.reply matches Reply::BoardUpdated(res) && res is Ok)
                            && final(store)@.boards =~= old(store)@.boards.update(i, board@)
                            && final(store)@.posts =~= old(store)@.posts
                    }
                }
            },
            Request::DeleteBoard { id } => {
                &&& (r matches Step::Done(o) && o.effect is Nothing
                    && o.reply is BoardDeleted)
                &&& !old(store)@.has_board_id(id) ==> final(store)@ =~= old(store)@
                &&& forall|i: int| 0 <= i < old(store)@.boards.len()
                        && (#[trigger] old(store)@.boards[i]).id == id
                    ==> final(store)@.boards =~= old(store)@.boards.remove(i)
                        && final(store)@.posts =~= old(store)@.posts
            },
        },
{
    match req {
        Request::CreatePost(args) => {
            let CreatePostArgs { board, content, ip, whois, reply, image } = args;
            match store.create_post(&board, content, ip, whois, reply, image, now) {
                CreateStep::Done(res) => Step::Done(Outcome {
                    reply: Reply::PostCreated(res),
                    effect: Effect::Nothing,
                }),
                CreateStep::NeedImageWrite(plan) => Step::NeedImageWrite(plan),
            }
        },
        Request::DeletePost { id } => {
            match store.delete_post(id) {
                None => Step::Done(Outcome {
                    reply: Reply::PostDeleted(false),
                    effect: Effect::Nothing,
                }),
                Some(image) => Step::Done(Outcome {
                    reply: Reply::PostDeleted(true),
                    effect: match image {
                        Some(name) => Effect::RemoveFile(name),
                        None => Effect::Nothing,
                    },
                }),
            }
        },
        Request::ListPostsInRange { board, start, end } => Step::Done(Outcome {
            reply: Reply::Posts(store.list_posts_in_range(board, start, end)),
            effect: Effect::Nothing,
        }),
        Request::ListBoards => Step::Done(Outcome {
            reply: Reply::Boards(store.list_boards()),
            effect: Effect::Nothing,
        }),
        Request::GetBoardByName { name } => Step::Done(Outcome {
            reply: Reply::BoardFound(store.get_board_by_name(&name)),
            effect: Effect::Nothing,
        }),
        Request::CreateBoard { name, description, color } => Step::Done(Outcome {
            reply: Reply::BoardCreated(store.create_board(name, description, color)),
            effect: Effect::Nothing,
        }),
        Request::UpdateBoard { board } => Step::Done(Outcome {
            reply: Reply::BoardUpdated(store.update_board(board)),
            effect: Effect::Nothing,
        }),
        Request::DeleteBoard { id } => {
            let _removed = store.delete_board(id);
            Step::Done(Outcome {
                reply: Reply::BoardDeleted,
                effect: Effect::Nothing,
            })
        },
    }
}

/// Completes a `NeedImageWrite` step once the worker has attempted the
/// create-only image write: the row is inserted only when the file was.
pub fn resume(store: &mut Store, plan: PostPlan, written: bool) -> (r: Outcome)
    requires
        old(store)@.wf(),
        timestamp_in_range(plan.time as int),
        written ==> !old(store)@.has_image(plan.image.filename@),
    ensures
        final(store)@.wf(),
        final(store)@.next_post_id >= old(store)@.next_post_id,
        r.effect is Nothing,
        !written ==> (r.reply matches Reply::PostCreated(Err(CreatePostError::ImageWrite))
            && final(store)@ =~= old(store)@),
        written && old(store)@.next_post_id == u64::MAX
            ==> (r.reply matches Reply::PostCreated(Err(CreatePostError::Full))
                && final(store)@ =~= old(store)@),
        written && old(store)@.next_post_id < u64::MAX
            ==> (r.reply matches Reply::PostCreated(Ok(id))
                && id == old(store)@.next_post_id
                && final(store)@.images =~= old(store)@.images.push(plan.image.filename@)
                && final(store)@.posts =~= old(store)@.posts.push(
                    (crate::models::PostModel {
                        id: old(store)@.next_post_id,
                        content: plan.content@,
                        image: Some(plan.image.filename@),
                        ip: plan.ip@,
                        whois: crate::models::whois_model(plan.whois),
                        reply: plan.reply,
                        board: plan.board_id,
                        time: plan.time,
                    }))),
{
    Outcome {
        reply: Reply::PostCreated(store.finish_create_post(plan, written)),
        effect: Effect::Nothing,
    }
}

} // verus!
