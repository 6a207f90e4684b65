//! Domain records of the imageboard and their mathematical models.
//!
//! Each executable record has a ghost counterpart holding plain values
//! (`Seq<char>` for strings), so that contracts and laws can state
//! transitions extensionally, without reference to heap values.

use vstd::prelude::*;
use crate::whois::WhoisResult;

verus! {

/// A board: a named category of posts. `name` doubles as the routing slug
/// and is unique across the store.
#[derive(Debug, Clone, PartialEq)]
pub struct Board {
    pub id: i64,
    pub name: String,
    pub description: String,
    pub color: u32,
}

/// A post row as the store keeps it: `reply` is the raw id of the post
/// being replied to (it may dangle after that post is deleted), `time`
/// is seconds since the epoch, `image` the stored filename if any.
#[derive(Debug, Clone, PartialEq)]
pub struct PostRecord {
    pub id: u64,
    pub content: String,
    pub image: Option<String>,
    pub ip: String,
    pub whois: Option<WhoisResult>,
    pub reply: Option<u64>,
    pub board: i64,
    pub time: i64,
}

/// The resolved projection of a reply target, as the read path reports it.
#[derive(Debug, PartialEq)]
pub struct ReplyTo {
    pub id: u64,
    pub time: i64,
    pub board: i64,
    pub board_name: String,
}

/// A post as the read path returns it: the row plus the resolved
/// `ReplyTo` projection (absent when the target or its board is gone).
#[derive(Debug, PartialEq)]
pub struct Post {
    pub id: u64,
    pub content: String,
    pub image: Option<String>,
    pub ip: String,
    pub whois: Option<WhoisResult>,
    pub reply: Option<ReplyTo>,
    pub time: i64,
    pub board: i64,
}

/// A one-shot status message carried through the session to the next page.
#[derive(Debug)]
pub enum Flash {
    Success(String),
    Error(String),
    Quiet,
}

impl Default for Flash {
    fn default() -> (r: Self)
        ensures
            r is Quiet,
    {
        Flash::Quiet
    }
}

/// Ghost model of a `Board`.
#[verifier::ext_equal]
pub struct BoardModel {
    pub id: i64,
    pub name: Seq<char>,
    pub description: Seq<char>,
    pub color: u32,
}

/// Ghost model of a `WhoisResult`.
#[verifier::ext_equal]
pub struct WhoisModel {
    pub asn: u32,
    pub mnt: Seq<char>,
}

/// Ghost model of a `PostRecord`.
#[verifier::ext_equal]
pub struct PostModel {
    pub id: u64,
    pub content: Seq<char>,
    pub image: Option<Seq<char>>,
    pub ip: Seq<char>,
    pub whois: Option<WhoisModel>,
    pub reply: Option<u64>,
    pub board: i64,
    pub time: i64,
}

/// Ghost model of a resolved `ReplyTo` projection.
#[verifier::ext_equal]
pub struct ReplyToModel {
    pub id: u64,
    pub time: i64,
    pub board: i64,
    pub board_name: Seq<char>,
}

/// Ghost model of a `Post` handed out by the read path.
#[verifier::ext_equal]
pub struct PostViewModel {
    pub id: u64,
    pub content: Seq<char>,
    pub image: Option<Seq<char>>,
    pub ip: Seq<char>,
    pub whois: Option<WhoisModel>,
    pub reply: Option<ReplyToModel>,
    pub time: i64,
    pub board: i64,
}

impl View for Board {
    type V = BoardModel;

    open spec fn view(&self) -> BoardModel {
        BoardModel {
            id: self.id,
            name: self.name@,
            description: self.description@,
            color: self.color,
        }
    }
}

/// Model of an optional whois annotation.
pub open spec fn whois_model(w: Option<WhoisResult>) -> Option<WhoisModel> {
    match w {
        Option::Some(r) => Option::Some(r@),
        Option::None => Option::None,
    }
}

/// Model of an optional stored filename.
pub open spec fn image_model(s: Option<String>) -> Option<Seq<char>> {
    match s {
        Option::Some(n) => Option::Some(n@),
        Option::None => Option::None,
    }
}

impl View for PostRecord {
    type V = PostModel;

    open spec fn view(&self) -> PostModel {
        PostModel {
            id: self.id,
            content: self.content@,
            image: image_model(self.image),
            ip: self.ip@,
            whois: whois_model(self.whois),
            reply: self.reply,
            board: self.board,
            time: self.time,
        }
    }
}

impl View for ReplyTo {
    type V = ReplyToModel;

    open spec fn view(&self) -> ReplyToModel {
        ReplyToModel {
            id: self.id,
            time: self.time,
            board: self.board,
            board_name: self.board_name@,
        }
    }
}

/// Model of an optional resolved reply projection.
pub open spec fn reply_to_model(r: Option<ReplyTo>) -> Option<ReplyToModel> {
    match r {
        Option::Some(t) => Option::Some(t@),
        Option::None => Option::None,
    }
}

impl View for Post {
    type V = PostViewModel;

    open spec fn view(&self) -> PostViewModel {
        PostViewModel {
            id: self.id,
            content: self.content@,
            image: image_model(self.image),
            ip: self.ip@,
            whois: whois_model(self.whois),
            reply: reply_to_model(self.reply),
            time: self.time,
            board: self.board,
        }
    }
}

} // verus!
