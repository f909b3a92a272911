//! What Reddit's replies mean.
use crate::text;
use vstd::prelude::*;

verus! {

/// How much of a reply is shown in a message.
pub const PREVIEW_LIMIT: usize = 200;

/// The start of a reply, on one line.
pub open spec fn preview(body: Seq<char>) -> Seq<char> {
    let shown = if body.len() > PREVIEW_LIMIT {
        body.take(PREVIEW_LIMIT as int)
    } else {
        body
    };
    shown.map_values(|c: char| if c == '\n' || c == '\r' { ' ' } else { c })
}

/// Cuts a reply down to its start and puts it on one line, for a message.
pub fn response_preview(body: &str) -> (r: String)
    ensures
        r@ == preview(body@),
{
    let chars = text::chars_of(body);
    let end: usize = if chars.len() > PREVIEW_LIMIT {
        PREVIEW_LIMIT
    } else {
        chars.len()
    };
    let mut r = String::new();
    let mut i: usize = 0;
    while i < end
        invariant
            i <= end <= chars@.len(),
            end == (if chars@.len() > PREVIEW_LIMIT {
                PREVIEW_LIMIT as int
            } else {
                chars@.len() as int
            }),
            r@ == preview(chars@).take(i as int),
        decreases end - i,
    {
        let c = chars[i];
        if c == '\n' || c == '\r' {
            r.push(' ');
        } else {
            r.push(c);
        }
        assert(preview(chars@).take(i + 1) == preview(chars@).take(i as int).push(
            preview(chars@)[i as int],
        ));
        i = i + 1;
    }
    assert(preview(chars@).take(end as int) == preview(chars@));
    r
}

/// What a status says about a request.
#[derive(Clone, Copy, Debug, PartialEq, Eq)]
pub enum StatusClass {
    Unauthorized,
    Success,
    Failure,
}

/// What the HTTP status code `status` says about a request.
pub open spec fn status_class(status: u16) -> StatusClass {
    if status == 401 {
        StatusClass::Unauthorized
    } else if 200 <= status < 300 {
        StatusClass::Success
    } else {
        StatusClass::Failure
    }
}

/// Tells what an HTTP status code says about a request.
pub fn classify_status(status: u16) -> (r: StatusClass)
    ensures
        r == status_class(status),
{
    if status == 401 {
        StatusClass::Unauthorized
    } else if 200 <= status && status < 300 {
        StatusClass::Success
    } else {
        StatusClass::Failure
    }
}

/// The content type of a reply, or what stands for it in messages if there is none.
pub open spec fn content_type_text(content_type: Option<Seq<char>>) -> Seq<char> {
    match content_type {
        Some(s) => s,
        None => "<missing>"@,
    }
}

/// The content type of a reply as it is shown in messages.
pub fn shown_content_type(content_type: Option<&str>) -> (r: String)
    ensures
        r@ == content_type_text(text::optional(content_type)),
{
    match content_type {
        Some(s) => s.to_owned(),
        None => "<missing>".to_owned(),
    }
}

/// What has become of a request for the newest posts.
pub enum ListingCheck {
    /// The session has expired.
    Unauthorized,
    /// The request failed.
    BadStatus { content_type: String, body_prefix: String },
    /// The reply is no JSON.
    NotJson { content_type: String, body_prefix: String },
    /// The reply is to be decoded.
    Json { content_type: String },
}

/// Looks at a reply to a request for the newest posts before it is decoded.
pub fn check_listing(status: u16, content_type: Option<&str>, body: &str) -> (r: ListingCheck)
    ensures
        ({
            let kind = content_type_text(text::optional(content_type));
            let is_json = exists|i: int| text::occurs_at(kind, "json"@, i);
            match r {
                ListingCheck::Unauthorized => status_class(status) is Unauthorized,
                ListingCheck::BadStatus { content_type: shown, body_prefix } => {
                    &&& status_class(status) is Failure
                    &&& shown@ == kind
                    &&& body_prefix@ == preview(body@)
                },
                ListingCheck::NotJson { content_type: shown, body_prefix } => {
                    &&& status_class(status) is Success
                    &&& !is_json
                    &&& shown@ == kind
                    &&& body_prefix@ == preview(body@)
                },
                ListingCheck::Json { content_type: shown } => {
                    &&& status_class(status) is Success
                    &&& is_json
                    &&& shown@ == kind
                },
            }
        }),
{
    let shown = shown_content_type(content_type);
    match classify_status(status) {
        StatusClass::Unauthorized => ListingCheck::Unauthorized,
        StatusClass::Failure => ListingCheck::BadStatus {
            content_type: shown,
            body_prefix: response_preview(body),
        },
        StatusClass::Success => if text::contains(shown.as_str(), "json") {
            ListingCheck::Json { content_type: shown }
        } else {
            ListingCheck::NotJson { content_type: shown, body_prefix: response_preview(body) }
        },
    }
}

/// What Reddit says about a comment that was posted.
pub struct CommentReply {
    /// Why Reddit did not take the comment, if it did not.
    pub errors: Vec<String>,
    /// The full names of the comments that were made, as far as they are given.
    pub things: Option<Vec<Option<String>>>,
}

/// Why a comment counts as not posted.
pub enum CommentError {
    /// Reddit did not take it.
    Rejected(Vec<String>),
    /// Reddit did not say what it is called.
    MissingFullname,
}

/// The full name of the first comment that was made.
pub open spec fn first_fullname(things: Option<Vec<Option<String>>>) -> Option<String> {
    match things {
        Some(names) if names@.len() > 0 => names@[0],
        _ => None,
    }
}

/// The full name of the comment that was posted.
pub fn posted_fullname(reply: CommentReply) -> (r: Result<String, CommentError>)
    ensures
        match r {
            Ok(name) => reply.errors@.len() == 0 && first_fullname(reply.things) == Some(name),
            Err(CommentError::Rejected(errors)) => reply.errors@.len() > 0 && errors
                == reply.errors,
            Err(CommentError::MissingFullname) => reply.errors@.len() == 0 && first_fullname(
                reply.things,
            ) is None,
        },
{
    if reply.errors.len() > 0 {
        return Err(CommentError::Rejected(reply.errors));
    }
    match reply.things {
        Some(names) => if names.len() > 0 {
            match names[0].clone() {
                Some(name) => Ok(name),
                None => Err(CommentError::MissingFullname),
            }
        } else {
            Err(CommentError::MissingFullname)
        },
        None => Err(CommentError::MissingFullname),
    }
}

/// A preview is short and stands on one line.
pub proof fn law_preview_short(body: Seq<char>)
    ensures
        preview(body).len() <= PREVIEW_LIMIT,
        !preview(body).contains('\n'),
        !preview(body).contains('\r'),
{
    let p = preview(body);
    assert forall|i: int| 0 <= i < p.len() implies p[i] != '\n' && p[i] != '\r' by {
    }
}

/// A preview of a preview is the preview itself.
pub proof fn law_preview_idempotent(body: Seq<char>)
    ensures
        preview(preview(body)) == preview(body),
{
    law_preview_short(body);
    assert(preview(preview(body)) =~= preview(body));
}

/// A preview says what the reply says, character by character, up to two hundred of them, but for
/// line breaks, which become spaces.
pub proof fn law_preview_keeps_text(body: Seq<char>, i: int)
    ensures
        preview(body).len() == (if body.len() < 200 {
            body.len()
        } else {
            200
        }),
        0 <= i < preview(body).len() && body[i] != '\n' && body[i] != '\r' ==> preview(body)[i]
            == body[i],
        0 <= i < preview(body).len() && (body[i] == '\n' || body[i] == '\r') ==> preview(body)[i]
            == ' ',
{
}

/// Success is the two hundreds, and only one status tells that the session has expired.
pub proof fn law_status_class(status: u16)
    ensures
        status_class(status) is Success <==> status / 100 == 2,
        status_class(status) is Unauthorized <==> status == 401,
        status_class(status) is Failure <==> status / 100 != 2 && status != 401,
{
}

/// A content type that is given is shown as it is.
pub proof fn law_content_type_shown(content_type: Seq<char>)
    ensures
        content_type_text(Some(content_type)) == content_type,
        content_type_text(None) == "<missing>"@,
{
}

/// The full name is that of the first comment, if that comment has one.
pub proof fn law_first_fullname(things: Option<Vec<Option<String>>>, name: String)
    ensures
        first_fullname(things) == Some(name) <==> things is Some && things->0@.len() > 0
            && things->0@[0] == Some(name),
{
}

} // verus!
