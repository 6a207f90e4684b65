//! Decoding of raw storage rows into domain records.
//!
//! The application shell reads plain column values back from durable
//! storage and hands them here; this module decides, verifiably, what
//! row they form — or reports, explicitly, that they cannot.

use vstd::prelude::*;
use crate::models::{PostRecord, PostModel, WhoisModel};
use crate::whois::WhoisResult;
use crate::timestamps::{timestamp_in_range, timestamp_representable};

verus! {

/// Why a stored row could not be decoded.
#[derive(Debug, PartialEq, Eq)]
pub enum DecodeError {
    /// The stored seconds value lies outside the representable calendar
    /// range; surfaced as an error for that row, never a panic or a
    /// silent clamp.
    BadTimestamp,
}

/// The whois annotation carried by a row: present exactly when both
/// columns are.
pub open spec fn paired_whois(asn: Option<u32>, mnt: Option<String>) -> Option<WhoisModel> {
    match (asn, mnt) {
        (Some(a), Some(m)) => Some(WhoisModel { asn: a, mnt: m@ }),
        _ => None,
    }
}

/// Decodes one stored post row. The whois pair is kept only when both
/// of its columns are present; a timestamp outside the representable
/// range fails the row explicitly.
pub fn decode_post_row(id: u64, content: String, image: Option<String>, ip: String,
    asn: Option<u32>, mnt: Option<String>, reply: Option<u64>, board: i64, time: i64)
    -> (r: Result<PostRecord, DecodeError>)
    ensures
        timestamp_in_range(time as int) ==> (r matches Ok(p) && p@ =~= (PostModel {
            id: id,
            content: content@,
            image: crate::models::image_model(image),
            ip: ip@,
            whois: paired_whois(asn, mnt),
            reply: reply,
            board: board,
            time: time,
        })),
        !timestamp_in_range(time as int) ==> r matches Err(DecodeError::BadTimestamp),
{
    if !timestamp_representable(time) {
        return Err(DecodeError::BadTimestamp);
    }
    let whois = match (asn, mnt) {
        (Some(a), Some(m)) => Some(WhoisResult { asn: a, mnt: m }),
        _ => None,
    };
    Ok(PostRecord { id, content, image, ip, whois, reply, board, time })
}

} // verus!
