//! Posts, and whether they are answered.
use crate::gd::LevelInfo;
use crate::reddit::level_id;
use crate::reddit::reply;
use crate::text;
use vstd::prelude::*;

verus! {

/// Posts that are older than this are not answered.
pub const MAX_AGE_SECS: u64 = 60;

/// A post.
pub struct Submission {
    /// The short ID, such as `abc123`.
    pub id: String,
    /// The full name, such as `t3_abc123`, under which comments are posted.
    pub name: String,
    pub title: String,
    pub author: String,
    /// When the post was made, in whole seconds since the Unix epoch, unless that was before it.
    pub created_secs: Option<u64>,
}

/// What is to be done about a post.
pub enum Triage {
    /// Nothing: the system clock is before the Unix epoch.
    ClockBeforeEpoch,
    /// Nothing: the post claims to have been made before the Unix epoch.
    CreatedBeforeEpoch,
    /// Nothing: the post is too old, or the bot made it.
    Skip { age_secs: u64, is_self: bool },
    /// Nothing: the title holds no level ID.
    NoLevelId,
    /// The level with this ID is to be looked up.
    LookUp(String),
}

/// How old a post is.
pub open spec fn age(now: u64, created: u64) -> int {
    if now >= created {
        now - created
    } else {
        0
    }
}

/// Decides what is to be done about a post, at the time `now` in seconds since the Unix epoch, on
/// behalf of the user `own_username`.
pub fn triage(now: Option<u64>, submission: &Submission, own_username: Option<&str>) -> (r: Triage)
    ensures
        ({
            let by_bot = text::optional(own_username) == Some(submission.author@);
            match r {
                Triage::ClockBeforeEpoch => now is None,
                Triage::CreatedBeforeEpoch => now is Some && submission.created_secs is None,
                Triage::Skip { age_secs, is_self } => {
                    &&& now is Some
                    &&& submission.created_secs is Some
                    &&& age_secs == age(now->0, submission.created_secs->0)
                    &&& is_self == by_bot
                    &&& age_secs > MAX_AGE_SECS || is_self
                },
                Triage::NoLevelId => {
                    &&& now is Some
                    &&& submission.created_secs is Some
                    &&& age(now->0, submission.created_secs->0) <= MAX_AGE_SECS
                    &&& !by_bot
                    &&& level_id::level_id(submission.title@) is None
                },
                Triage::LookUp(id) => {
                    &&& now is Some
                    &&& submission.created_secs is Some
                    &&& age(now->0, submission.created_secs->0) <= MAX_AGE_SECS
                    &&& !by_bot
                    &&& level_id::level_id(submission.title@) == Some(id@)
                },
            }
        }),
        now is Some && submission.created_secs is Some && (r is LookUp || r is NoLevelId)
            ==> now->0 <= submission.created_secs->0 + 60,
        now is Some && submission.created_secs is Some && now->0 > submission.created_secs->0 + 60
            ==> r is Skip && r->age_secs + submission.created_secs->0 == now->0,
{
    let now: u64 = match now {
        Some(now) => now,
        None => {
            return Triage::ClockBeforeEpoch;
        },
    };
    let created: u64 = match submission.created_secs {
        Some(created) => created,
        None => {
            return Triage::CreatedBeforeEpoch;
        },
    };
    let age_secs: u64 = if now >= created {
        now - created
    } else {
        0
    };
    let is_self = match own_username {
        Some(name) => text::same_text(name, submission.author.as_str()),
        None => false,
    };
    if age_secs > MAX_AGE_SECS || is_self {
        return Triage::Skip { age_secs, is_self };
    }
    match level_id::find_level_id(submission.title.as_str()) {
        Some(id) => Triage::LookUp(id),
        None => Triage::NoLevelId,
    }
}

/// What has become of a lookup.
pub enum LookupEvent {
    Found(LevelInfo),
    NotFound,
    Failed,
    TimedOut,
}

/// The reply that is due after a lookup, if any.
pub fn reply_after_lookup(event: &LookupEvent) -> (r: Option<String>)
    ensures
        match r {
            Some(text) => event is Found && text@ == reply::reply(event->0),
            None => event !is Found,
        },
{
    match event {
        LookupEvent::Found(info) => Some(reply::format_reply(info)),
        _ => None,
    }
}

/// The age of a post is the time since it was made, and none if it was made in the future; so a
/// post is too old exactly from sixty-one seconds after it was made.
pub proof fn law_age(now: u64, created: u64)
    ensures
        now >= created ==> age(now, created) + created == now,
        now < created ==> age(now, created) == 0,
        age(now, created) > MAX_AGE_SECS <==> now > created + 60,
{
}

} // verus!
