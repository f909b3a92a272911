use rgd_zbot::gd::LevelInfo;
use rgd_zbot::reddit::polling::{
    failure_backoff_delay, may_have_missed_posts, select_new, PollAction, PollEvent, PollState,
};
use rgd_zbot::reddit::request::{comment_form, listing_url, sticky_form};
use rgd_zbot::reddit::response::{
    check_listing, classify_status, posted_fullname, response_preview, shown_content_type,
    CommentError, CommentReply, ListingCheck, StatusClass,
};
use rgd_zbot::reddit::retry::{
    reply_step, sticky_step, ReplyAction, ReplyEvent, StickyAction, StickyEvent,
};
use rgd_zbot::reddit::seen::{remember_seen, SeenPosts, SEEN_ID_CAPACITY};
use rgd_zbot::reddit::submission::{
    reply_after_lookup, triage, LookupEvent, Submission, Triage,
};
use rgd_zbot::reddit::{format_reply, RedditAuth};

fn post(id: &str) -> Submission {
    Submission {
        id: id.to_owned(),
        name: format!("t3_{id}"),
        title: "id 12345678".to_owned(),
        author: "someone".to_owned(),
        created_secs: Some(1000),
    }
}

fn see(seen: &mut SeenPosts, n: usize) -> bool {
    remember_seen(n.to_string(), seen)
}

#[test]
fn seen_posts_are_not_new() {
    let mut seen = SeenPosts::new();
    assert!(see(&mut seen, 1));
    assert!(!see(&mut seen, 1));
    assert!(see(&mut seen, 2));
    assert!(!see(&mut seen, 1));
    assert_eq!(seen.len(), 2);
}

#[test]
fn oldest_post_is_forgotten() {
    let mut seen = SeenPosts::new();
    for n in 0..SEEN_ID_CAPACITY {
        assert!(see(&mut seen, n));
    }
    assert_eq!(seen.len(), SEEN_ID_CAPACITY);
    assert!(!see(&mut seen, 0));
    assert!(see(&mut seen, SEEN_ID_CAPACITY));
    assert_eq!(seen.len(), SEEN_ID_CAPACITY);
    assert!(!see(&mut seen, 1));
    // Number 0 was the oldest; it drives out number 1 in turn.
    assert!(see(&mut seen, 0));
    assert!(see(&mut seen, 1));
    assert!(!see(&mut seen, 3));
}

#[test]
fn remembered_while_room_lasts() {
    let mut seen = SeenPosts::new();
    assert!(remember_seen("x".to_owned(), &mut seen));
    for n in 0..SEEN_ID_CAPACITY - 1 {
        see(&mut seen, n);
        see(&mut seen, n);
    }
    assert!(!remember_seen("x".to_owned(), &mut seen));
    see(&mut seen, SEEN_ID_CAPACITY);
    assert!(remember_seen("x".to_owned(), &mut seen));
}

#[test]
fn new_posts_in_order() {
    let mut seen = SeenPosts::new();
    let fresh = select_new(vec![post("a"), post("b"), post("a"), post("c")], &mut seen);
    let ids: Vec<&str> = fresh.iter().map(|p| p.id.as_str()).collect();
    assert_eq!(ids, ["a", "b", "c"]);
    let fresh = select_new(vec![post("d"), post("b")], &mut seen);
    let ids: Vec<&str> = fresh.iter().map(|p| p.id.as_str()).collect();
    assert_eq!(ids, ["d"]);
    assert_eq!(seen.len(), 4);
}

#[test]
fn backoff_steps() {
    let waits: Vec<u64> = (0..8).map(failure_backoff_delay).collect();
    assert_eq!(waits, [4, 4, 8, 16, 32, 60, 60, 60]);
    assert_eq!(failure_backoff_delay(u32::MAX), 60);
}

#[test]
fn polling_decisions() {
    let mut state = PollState::new();
    assert!(matches!(state.step(PollEvent::Failed), PollAction::BackOff(4)));
    assert!(matches!(state.step(PollEvent::TimedOut), PollAction::BackOff(8)));
    assert!(matches!(state.step(PollEvent::Failed), PollAction::BackOff(16)));
    assert_eq!(state.failure_streak, 3);
    assert!(matches!(state.step(PollEvent::Unauthorized), PollAction::RefreshSession));
    assert_eq!(state.failure_streak, 0);
    assert!(matches!(state.step(PollEvent::Failed), PollAction::BackOff(4)));
    match state.step(PollEvent::Fetched(vec![post("a"), post("b")])) {
        PollAction::Handle(posts) => assert_eq!(posts.len(), 2),
        _ => panic!("expected posts"),
    }
    assert_eq!(state.failure_streak, 0);
    match state.step(PollEvent::Fetched(vec![post("c"), post("b")])) {
        PollAction::Handle(posts) => {
            assert_eq!(posts.len(), 1);
            assert_eq!(posts[0].name, "t3_c");
        }
        _ => panic!("expected posts"),
    }
    assert_eq!(state.seen.len(), 3);
}

#[test]
fn failure_streak_saturates() {
    let mut state = PollState::new();
    state.failure_streak = u32::MAX;
    assert!(matches!(state.step(PollEvent::Failed), PollAction::BackOff(60)));
    assert_eq!(state.failure_streak, u32::MAX);
}

#[test]
fn full_listing_of_new_posts() {
    assert!(may_have_missed_posts(100));
    assert!(!may_have_missed_posts(99));
    assert!(!may_have_missed_posts(0));
}

#[test]
fn previews() {
    assert_eq!(response_preview("a\nb\r\nc"), "a b  c");
    assert_eq!(response_preview(""), "");
    let long = "\u{e9}".repeat(250);
    assert_eq!(response_preview(&long), "\u{e9}".repeat(200));
    assert_eq!(response_preview(&response_preview(&long)), response_preview(&long));
    assert_eq!(response_preview(&"x".repeat(200)), "x".repeat(200));
}

#[test]
fn statuses() {
    assert_eq!(classify_status(401), StatusClass::Unauthorized);
    for status in [200, 201, 299] {
        assert_eq!(classify_status(status), StatusClass::Success);
    }
    for status in [100, 199, 300, 400, 402, 403, 500] {
        assert_eq!(classify_status(status), StatusClass::Failure);
    }
}

#[test]
fn listing_checks() {
    assert!(matches!(
        check_listing(401, Some("application/json"), "{}"),
        ListingCheck::Unauthorized
    ));
    match check_listing(503, None, "down\nfor now") {
        ListingCheck::BadStatus { content_type, body_prefix } => {
            assert_eq!(content_type, "<missing>");
            assert_eq!(body_prefix, "down for now");
        }
        _ => panic!("expected a bad status"),
    }
    match check_listing(200, Some("text/html"), "<html>") {
        ListingCheck::NotJson { content_type, body_prefix } => {
            assert_eq!(content_type, "text/html");
            assert_eq!(body_prefix, "<html>");
        }
        _ => panic!("expected something else than JSON"),
    }
    match check_listing(200, Some("application/json; charset=UTF-8"), "{}") {
        ListingCheck::Json { content_type } => {
            assert_eq!(content_type, "application/json; charset=UTF-8");
        }
        _ => panic!("expected JSON"),
    }
    assert!(matches!(check_listing(200, Some("application/JSON"), ""), ListingCheck::NotJson { .. }));
    assert_eq!(shown_content_type(None), "<missing>");
}

#[test]
fn posted_comments() {
    let reply = |errors: &[&str], things: Option<Vec<Option<&str>>>| {
        posted_fullname(CommentReply {
            errors: errors.iter().map(|e| e.to_string()).collect(),
            things: things.map(|t| t.into_iter().map(|n| n.map(|n| n.to_owned())).collect()),
        })
    };
    match reply(&[], Some(vec![Some("t1_a"), Some("t1_b")])) {
        Ok(name) => assert_eq!(name, "t1_a"),
        Err(_) => panic!("expected a comment"),
    }
    match reply(&["RATELIMIT"], Some(vec![Some("t1_a")])) {
        Err(CommentError::Rejected(errors)) => assert_eq!(errors, ["RATELIMIT"]),
        _ => panic!("expected a rejection"),
    }
    assert!(matches!(reply(&[], None), Err(CommentError::MissingFullname)));
    assert!(matches!(reply(&[], Some(vec![])), Err(CommentError::MissingFullname)));
    assert!(matches!(
        reply(&[], Some(vec![None, Some("t1_b")])),
        Err(CommentError::MissingFullname)
    ));
}

#[test]
fn requests() {
    assert_eq!(listing_url(), "https://oauth.reddit.com/r/geometrydash/new?limit=100");
    let pairs = |form: Vec<(String, String)>| {
        form.into_iter().map(|(name, value)| format!("{name}={value}")).collect::<Vec<_>>()
    };
    assert_eq!(pairs(comment_form("hi", "t3_a")), ["api_type=json", "text=hi", "parent=t3_a"]);
    assert_eq!(pairs(sticky_form("t1_a")), ["api_type=json", "how=yes", "sticky=true", "id=t1_a"]);
}

#[test]
fn posts_worth_answering() {
    let p = post("a");
    assert!(matches!(triage(Some(1060), &p, Some("bot")), Triage::LookUp(id) if id == "12345678"));
    assert!(matches!(triage(Some(900), &p, None), Triage::LookUp(_)));
    assert!(matches!(
        triage(Some(1061), &p, Some("bot")),
        Triage::Skip { age_secs: 61, is_self: false }
    ));
    assert!(matches!(
        triage(Some(1000), &p, Some("someone")),
        Triage::Skip { age_secs: 0, is_self: true }
    ));
    assert!(matches!(triage(None, &p, Some("bot")), Triage::ClockBeforeEpoch));
    let mut q = post("b");
    q.created_secs = None;
    assert!(matches!(triage(Some(1000), &q, Some("bot")), Triage::CreatedBeforeEpoch));
    let mut q = post("c");
    q.title = "no level here".to_owned();
    assert!(matches!(triage(Some(1000), &q, Some("bot")), Triage::NoLevelId));
}

fn level() -> LevelInfo {
    LevelInfo {
        id: 1,
        name: "L".to_owned(),
        description: String::new(),
        creator_username: "c".to_owned(),
        difficulty: "Easy".to_owned(),
        stars: 2,
        downloads: 3,
        likes: 4,
        length: "Tiny".to_owned(),
        song_name: "S".to_owned(),
        song_artist: "A".to_owned(),
        song_id: 5,
        is_official_song: true,
    }
}

#[test]
fn only_found_levels_are_answered() {
    assert_eq!(reply_after_lookup(&LookupEvent::Found(level())), Some(format_reply(&level())));
    assert_eq!(reply_after_lookup(&LookupEvent::NotFound), None);
    assert_eq!(reply_after_lookup(&LookupEvent::Failed), None);
    assert_eq!(reply_after_lookup(&LookupEvent::TimedOut), None);
}

#[test]
fn replies_refresh_the_session_once() {
    let mut refreshed = false;
    assert!(matches!(
        reply_step(&mut refreshed, ReplyEvent::Unauthorized),
        ReplyAction::RefreshSession
    ));
    assert!(refreshed);
    assert!(matches!(reply_step(&mut refreshed, ReplyEvent::Unauthorized), ReplyAction::GiveUp));
    assert!(matches!(
        reply_step(&mut refreshed, ReplyEvent::Posted("t1_a".to_owned())),
        ReplyAction::Sticky(name) if name == "t1_a"
    ));
    let mut refreshed = false;
    assert!(matches!(reply_step(&mut refreshed, ReplyEvent::Failed), ReplyAction::GiveUp));
    assert!(matches!(reply_step(&mut refreshed, ReplyEvent::TimedOut), ReplyAction::GiveUp));
    assert!(!refreshed);
}

#[test]
fn pinning_refreshes_the_session_once() {
    let mut refreshed = false;
    assert_eq!(sticky_step(&mut refreshed, StickyEvent::Failed), StickyAction::Fail);
    assert_eq!(sticky_step(&mut refreshed, StickyEvent::TimedOut), StickyAction::Fail);
    assert_eq!(sticky_step(&mut refreshed, StickyEvent::Responded(500)), StickyAction::Fail);
    assert!(!refreshed);
    assert_eq!(
        sticky_step(&mut refreshed, StickyEvent::Responded(401)),
        StickyAction::RefreshSession
    );
    assert!(refreshed);
    assert_eq!(sticky_step(&mut refreshed, StickyEvent::Responded(401)), StickyAction::Fail);
    assert_eq!(sticky_step(&mut refreshed, StickyEvent::Responded(204)), StickyAction::Done);
}

#[test]
fn credentials_are_copied() {
    let auth = RedditAuth {
        user_agent: "agent".to_owned(),
        client_id: "id".to_owned(),
        client_secret: "cs".to_owned(),
        username: "bot".to_owned(),
        password: "pw".to_owned(),
    };
    let copy = auth.clone();
    assert_eq!(copy.user_agent, "agent");
    assert_eq!(copy.password, "pw");
}
