//! The submission pipeline: validating what a poster sent, rendering
//! its markup, naming its image, and the one-shot messages shown back.

use vstd::prelude::*;
use crate::images::{InsertImage, imghdr, spec_imghdr, prepare_image, is_alnum_char, STEM_LEN};
use crate::models::Flash;
use crate::text::{parse_u64_dec, valid_number, radix_value, stripped_digits};

verus! {

#[verifier::external_type_specification]
#[verifier::external_body]
pub struct ExBBCode(bbscope::BBCode);

/// What the markup renderer produces for a given input. The renderer is
/// deterministic — a fixed tag configuration and regular-expression
/// matching over the input alone — so its output is a function of the
/// input; nothing further is assumed about it.
pub uninterp spec fn bbcode_of(s: Seq<char>) -> Seq<char>;

/// Whether the renderer accepts a tag configuration: building a parser
/// from an accepted-tags list succeeds or fails on that list alone, so
/// the outcome is a function of the tags.
pub uninterp spec fn bbcode_config_ok(tags: Seq<Seq<char>>) -> bool;

/// The markup renderer, built once at startup with the fixed set of
/// accepted tags and shared by every submission.
pub struct Formatter {
    bb: bbscope::BBCode,
}

impl Formatter {
    /// Relies on bbscope's `BBCodeTagConfig::default` and
    /// `BBCode::from_config`: building a parser from a tag
    /// configuration, `None` exactly when a tag's pattern fails to
    /// compile — which is decided by the tag list alone, the fact the
    /// `bbcode_config_ok` name stands for.
    /// Private: every `Formatter` is built through `formatter`, with one
    /// fixed tag set, which is what lets `render` name its result as a
    /// function of the input alone.
    #[verifier::external_body]
    fn new(tags: &Vec<String>) -> (r: Option<Formatter>)
        ensures
            r is Some <==> bbcode_config_ok(tags@.map_values(|t: String| t@)),
    {
        let mut config = bbscope::BBCodeTagConfig::default();
        config.accepted_tags = tags.clone();
        match bbscope::BBCode::from_config(config, None) {
            Ok(bb) => Some(Formatter { bb }),
            Err(_) => None,
        }
    }

    /// Relies on bbscope's `BBCode::parse`: it renders the input's
    /// accepted tags and escapes the rest, from the input and the fixed
    /// configuration alone.
    #[verifier::external_body]
    fn render(&self, s: &str) -> (r: String)
        ensures
            r@ == bbcode_of(s@),
    {
        self.bb.parse(s)
    }
}

/// Builds the process-wide formatter: bold, italics, superscript,
/// subscript, underline and strikethrough, nothing else. It succeeds
/// exactly when the renderer accepts this fixed configuration, so a
/// refused configuration fails startup explicitly.
pub fn formatter() -> (r: Option<Formatter>)
    ensures
        r is Some <==> bbcode_config_ok(seq!["b"@, "i"@, "sup"@, "sub"@, "u"@, "s"@]),
{
    let mut tags: Vec<String> = Vec::new();
    tags.push(String::from_str("b"));
    tags.push(String::from_str("i"));
    tags.push(String::from_str("sup"));
    tags.push(String::from_str("sub"));
    tags.push(String::from_str("u"));
    tags.push(String::from_str("s"));
    let r = Formatter::new(&tags);
    proof {
        assert(tags@.map_values(|t: String| t@)
            =~= seq!["b"@, "i"@, "sup"@, "sub"@, "u"@, "s"@]);
    }
    r
}

/// Why a submission was turned away, each the subject of its own flash
/// message.
#[derive(Debug, PartialEq, Eq)]
pub enum SubmitError {
    EmptyContent,
    TooLong,
    BadImage,
    BadReplyId,
}

/// A submission as the multipart reader hands it over: the raw text,
/// the raw upload, and the reply field's text.
pub struct Submission {
    pub content: String,
    pub image: Option<Vec<u8>>,
    pub reply: Option<String>,
}

/// A submission that passed validation: content rendered, reply id
/// parsed, image named and ready for the coupled write.
pub struct PreparedPost {
    pub content: String,
    pub reply: Option<u64>,
    pub image: Option<InsertImage>,
}

/// An upload that is present, non-empty, and of no recognized format.
pub open spec fn bad_image(image: Option<Vec<u8>>) -> bool {
    match image {
        Some(b) => b@.len() > 0 && spec_imghdr(b@) is None,
        None => false,
    }
}

/// A reply field that is present, non-empty, and no parseable id.
pub open spec fn bad_reply(reply: Option<String>) -> bool {
    match reply {
        Some(s) => s@.len() > 0 && !valid_number(s@, 10, u64::MAX as int),
        None => false,
    }
}

/// The parsed reply target: an empty or absent field is no reply.
pub open spec fn spec_reply_id(reply: Option<String>) -> Option<u64> {
    match reply {
        Some(s) => if s@.len() == 0 {
            None
        } else {
            Some(radix_value(stripped_digits(s@), 10) as u64)
        },
        None => None,
    }
}

/// Validates a submission and prepares it for the store, in the order
/// the poster sees: empty content first, then the length bound (in
/// characters), then the upload's format, then the reply id. An empty
/// upload counts as no upload. On success the content is rendered and
/// the upload is named: a fresh random alphanumeric stem and the
/// extension its magic bytes dictate.
pub fn prepare_submission(sub: Submission, max_post_length: usize, fmt: &Formatter)
    -> (r: Result<PreparedPost, SubmitError>)
    ensures
        sub.content@.len() == 0 ==> r matches Err(SubmitError::EmptyContent),
        sub.content@.len() > max_post_length ==> r matches Err(SubmitError::TooLong),
        0 < sub.content@.len() <= max_post_length && bad_image(sub.image)
            ==> r matches Err(SubmitError::BadImage),
        0 < sub.content@.len() <= max_post_length && !bad_image(sub.image)
            && bad_reply(sub.reply) ==> r matches Err(SubmitError::BadReplyId),
        0 < sub.content@.len() <= max_post_length && !bad_image(sub.image)
            && !bad_reply(sub.reply)
            ==> (r matches Ok(p)
                && p.content@ == bbcode_of(sub.content@)
                && p.reply == spec_reply_id(sub.reply)
                && (match sub.image {
                    Some(b) => if b@.len() == 0 {
                        p.image is None
                    } else {
                        p.image matches Some(img) && img.bytes@ == b@
                            && img.filename@.len()
                                == STEM_LEN + spec_imghdr(b@)->0@.len()
                            && img.filename@.subrange(STEM_LEN as int,
                                img.filename@.len() as int) == spec_imghdr(b@)->0@
                            && (forall|i: int| 0 <= i < STEM_LEN
                                ==> is_alnum_char(#[trigger] img.filename@[i]))
                    },
                    None => p.image is None,
                })),
{
    let Submission { content, image, reply } = sub;
    let clen = content.as_str().unicode_len();
    if clen == 0 {
        return Err(SubmitError::EmptyContent);
    }
    if clen > max_post_length {
        return Err(SubmitError::TooLong);
    }
    let prepared_image = match image {
        Some(bytes) => {
            if bytes.len() == 0 {
                None
            } else if imghdr(bytes.as_slice()).is_none() {
                return Err(SubmitError::BadImage);
            } else {
                match prepare_image(bytes) {
                    Some(img) => Some(img),
                    None => {
                        return Err(SubmitError::BadImage);
                    },
                }
            }
        },
        None => None,
    };
    let reply_id = match &reply {
        Some(s) => {
            if s.as_str().unicode_len() == 0 {
                None
            } else {
                match parse_u64_dec(s.as_str()) {
                    Some(v) => Some(v),
                    None => {
                        return Err(SubmitError::BadReplyId);
                    },
                }
            }
        },
        None => None,
    };
    let rendered = fmt.render(content.as_str());
    Ok(PreparedPost { content: rendered, reply: reply_id, image: prepared_image })
}

/// The decimal notation of a number.
pub open spec fn dec_str(n: int) -> Seq<char>
    decreases n,
{
    if n < 10 {
        seq![(('0' as u8 + n as u8) as char)]
    } else {
        dec_str(n / 10).push((('0' as u8 + (n % 10) as u8) as char))
    }
}

/// One decimal digit as a string.
fn digit_str(d: usize) -> (r: &'static str)
    requires
        d < 10,
    ensures
        r@ == seq![(('0' as u8 + d as u8) as char)],
{
    proof {
        reveal_strlit("0");
        reveal_strlit("1");
        reveal_strlit("2");
        reveal_strlit("3");
        reveal_strlit("4");
        reveal_strlit("5");
        reveal_strlit("6");
        reveal_strlit("7");
        reveal_strlit("8");
        reveal_strlit("9");
    }
    match d {
        0 => "0",
        1 => "1",
        2 => "2",
        3 => "3",
        4 => "4",
        5 => "5",
        6 => "6",
        7 => "7",
        8 => "8",
        _ => "9",
    }
}

/// The decimal notation of a machine word.
pub fn usize_to_string(n: usize) -> (s: String)
    ensures
        s@ == dec_str(n as int),
    decreases n,
{
    if n < 10 {
        String::from_str(digit_str(n))
    } else {
        let mut s = usize_to_string(n / 10);
        s.append(digit_str(n % 10));
        s
    }
}

/// The flash message a turned-away submission earns, word for word.
pub fn submit_error_flash(e: &SubmitError, max_post_length: usize) -> (r: Flash)
    ensures
        e is EmptyContent ==> (r matches Flash::Error(m)
            && m@ == "Post content cannot be empty"@),
        e is TooLong ==> (r matches Flash::Error(m)
            && m@ == "Post content too long (max "@ + dec_str(max_post_length as int)
                + " chars)"@),
        e is BadImage ==> (r matches Flash::Error(m)
            && m@ == "Image format not supported or invalid image"@),
        e is BadReplyId ==> (r matches Flash::Error(m)
            && m@ == "Couldn't parse reply ID"@),
{
    match e {
        SubmitError::EmptyContent => Flash::Error(String::from_str(
            "Post content cannot be empty")),
        SubmitError::TooLong => {
            let mut m = String::from_str("Post content too long (max ");
            let digits = usize_to_string(max_post_length);
            m.append(digits.as_str());
            m.append(" chars)");
            Flash::Error(m)
        },
        SubmitError::BadImage => Flash::Error(String::from_str(
            "Image format not supported or invalid image")),
        SubmitError::BadReplyId => Flash::Error(String::from_str(
            "Couldn't parse reply ID")),
    }
}

/// The flash message a served creation earns: success, or the specific
/// word that the reply target is gone. Other failures are no flash but
/// a failure page, and are left to the caller.
pub fn create_post_flash(res: &Result<u64, crate::store::CreatePostError>) -> (r: Flash)
    ensures
        res is Ok ==> (r matches Flash::Success(m)
            && m@ == "Post was added successfully"@),
        res matches Err(crate::store::CreatePostError::ReplyNotFound)
            ==> (r matches Flash::Error(m)
                && m@ == "Couldn't find the post you are replying to"@),
{
    match res {
        Ok(_) => Flash::Success(String::from_str("Post was added successfully")),
        Err(crate::store::CreatePostError::ReplyNotFound) => Flash::Error(
            String::from_str("Couldn't find the post you are replying to")),
        Err(_) => Flash::Error(String::from_str("Couldn't add the post")),
    }
}

} // verus!
