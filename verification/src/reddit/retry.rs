//! Posting and pinning a comment over a session that may have expired.
use crate::reddit::response;
use crate::reddit::response::StatusClass;
use vstd::prelude::*;

verus! {

/// What has become of an attempt to post a reply.
pub enum ReplyEvent {
    /// The comment with this full name was made.
    Posted(String),
    /// The session has expired.
    Unauthorized,
    Failed,
    TimedOut,
}

/// What is to be done after an attempt to post a reply.
pub enum ReplyAction {
    /// Pin the comment with this full name, and be done.
    Sticky(String),
    /// Open a new session and try again.
    RefreshSession,
    GiveUp,
}

/// What is to be done after `event`, if the session `was_refreshed` or not.
pub open spec fn reply_action(was_refreshed: bool, event: ReplyEvent) -> ReplyAction {
    match event {
        ReplyEvent::Posted(name) => ReplyAction::Sticky(name),
        ReplyEvent::Unauthorized if !was_refreshed => ReplyAction::RefreshSession,
        _ => ReplyAction::GiveUp,
    }
}

/// Decides what is to be done after an attempt to post a reply, and keeps track of whether the
/// session was refreshed.
pub fn reply_step(refreshed: &mut bool, event: ReplyEvent) -> (r: ReplyAction)
    ensures
        r == reply_action(*old(refreshed), event),
        match event {
            ReplyEvent::Posted(name) => r == ReplyAction::Sticky(name),
            ReplyEvent::Unauthorized => if *old(refreshed) {
                r is GiveUp
            } else {
                r is RefreshSession
            },
            ReplyEvent::Failed | ReplyEvent::TimedOut => r is GiveUp,
        },
        *final(refreshed) == (*old(refreshed) || r is RefreshSession),
{
    match event {
        ReplyEvent::Posted(name) => ReplyAction::Sticky(name),
        ReplyEvent::Unauthorized => if *refreshed {
            ReplyAction::GiveUp
        } else {
            *refreshed = true;
            ReplyAction::RefreshSession
        },
        ReplyEvent::Failed => ReplyAction::GiveUp,
        ReplyEvent::TimedOut => ReplyAction::GiveUp,
    }
}

/// What has become of an attempt to pin a comment.
pub enum StickyEvent {
    /// Reddit answered with this status.
    Responded(u16),
    Failed,
    TimedOut,
}

/// What is to be done after an attempt to pin a comment.
#[derive(Clone, Copy, Debug, PartialEq, Eq)]
pub enum StickyAction {
    Done,
    /// Open a new session and try again.
    RefreshSession,
    Fail,
}

/// What is to be done after `event`, if the session `was_refreshed` or not.
pub open spec fn sticky_action(was_refreshed: bool, event: StickyEvent) -> StickyAction {
    match event {
        StickyEvent::Responded(status) => match response::status_class(status) {
            StatusClass::Success => StickyAction::Done,
            StatusClass::Unauthorized if !was_refreshed => StickyAction::RefreshSession,
            _ => StickyAction::Fail,
        },
        _ => StickyAction::Fail,
    }
}

/// Decides what is to be done after an attempt to pin a comment, and keeps track of whether the
/// session was refreshed.
pub fn sticky_step(refreshed: &mut bool, event: StickyEvent) -> (r: StickyAction)
    ensures
        r == sticky_action(*old(refreshed), event),
        match event {
            StickyEvent::Responded(status) => if 200 <= status <= 299 {
                r is Done
            } else if status == 401 && !*old(refreshed) {
                r is RefreshSession
            } else {
                r is Fail
            },
            StickyEvent::Failed | StickyEvent::TimedOut => r is Fail,
        },
        *final(refreshed) == (*old(refreshed) || r is RefreshSession),
{
    match event {
        StickyEvent::Responded(status) => match response::classify_status(status) {
            StatusClass::Success => StickyAction::Done,
            StatusClass::Unauthorized => if *refreshed {
                StickyAction::Fail
            } else {
                *refreshed = true;
                StickyAction::RefreshSession
            },
            StatusClass::Failure => StickyAction::Fail,
        },
        StickyEvent::Failed => StickyAction::Fail,
        StickyEvent::TimedOut => StickyAction::Fail,
    }
}

/// How often a reply is tried if the attempts turn out as `events`: another attempt follows only
/// after the session was refreshed.
pub open spec fn reply_attempts(was_refreshed: bool, events: Seq<ReplyEvent>) -> nat
    decreases events.len(),
{
    if events.len() == 0 {
        0
    } else if reply_action(was_refreshed, events[0]) is RefreshSession {
        1 + reply_attempts(true, events.skip(1))
    } else {
        1
    }
}

/// How often pinning a comment is tried if the attempts turn out as `events`: another attempt
/// follows only after the session was refreshed.
pub open spec fn sticky_attempts(was_refreshed: bool, events: Seq<StickyEvent>) -> nat
    decreases events.len(),
{
    if events.len() == 0 {
        0
    } else if sticky_action(was_refreshed, events[0]) is RefreshSession {
        1 + sticky_attempts(true, events.skip(1))
    } else {
        1
    }
}

/// The session is refreshed at most once for a reply: however the attempts turn out, there are at
/// most two of them.
pub proof fn law_reply_refreshes_once(events: Seq<ReplyEvent>)
    ensures
        reply_attempts(false, events) <= 2,
{
    reveal_with_fuel(reply_attempts, 2);
}

/// The session is refreshed at most once for pinning a comment: however the attempts turn out,
/// there are at most two of them.
pub proof fn law_sticky_refreshes_once(events: Seq<StickyEvent>)
    ensures
        sticky_attempts(false, events) <= 2,
{
    reveal_with_fuel(sticky_attempts, 2);
}

/// A comment that was posted is pinned, whether the session was refreshed or not, and nothing else
/// is.
pub proof fn law_posted_comment_is_pinned(was_refreshed: bool, event: ReplyEvent, name: String)
    ensures
        reply_action(was_refreshed, ReplyEvent::Posted(name)) == ReplyAction::Sticky(name),
        reply_action(was_refreshed, event) == ReplyAction::Sticky(name) ==> event
            == ReplyEvent::Posted(name),
{
}

/// The session is refreshed exactly if it has expired and was not refreshed yet. Whatever else goes
/// wrong ends the reply.
pub proof fn law_expired_session_is_refreshed(was_refreshed: bool, event: ReplyEvent)
    ensures
        reply_action(was_refreshed, event) is RefreshSession <==> event is Unauthorized
            && !was_refreshed,
        reply_action(was_refreshed, event) is GiveUp <==> event is Failed || event is TimedOut
            || event is Unauthorized && was_refreshed,
{
}

/// Pinning is done exactly if Reddit answered with a status in the two hundreds, is tried again
/// exactly if the session has expired and was not refreshed yet, and has failed otherwise.
pub proof fn law_pinning(was_refreshed: bool, event: StickyEvent)
    ensures
        sticky_action(was_refreshed, event) is Done <==> event is Responded
            && event->Responded_0 / 100 == 2,
        sticky_action(was_refreshed, event) is RefreshSession <==> event
            == StickyEvent::Responded(401) && !was_refreshed,
        sticky_action(was_refreshed, event) is Fail <==> !(event is Responded
            && event->Responded_0 / 100 == 2) && (event != StickyEvent::Responded(401) || was_refreshed),
{
}

} // verus!
