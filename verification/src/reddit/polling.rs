//! Polling for new posts: backing off after failures, and telling new posts from old ones.
use crate::reddit::request::LISTING_LIMIT;
use crate::reddit::seen;
use crate::reddit::seen::SeenPosts;
use crate::reddit::submission::Submission;
use vstd::prelude::*;

verus! {

/// The time between two polls, which keeps well below Reddit's limit of requests per minute.
pub const POLL_INTERVAL_SECS: u64 = 4;

/// How long a request to Reddit or to the level server may take.
pub const REQUEST_TIMEOUT_SECS: u64 = 15;

/// How long to wait after one, two, three, four and more failures in a row.
pub const BACKOFF_SECS: [u64; 5] = [4, 8, 16, 32, 60];

/// How long to wait after `streak` failures in a row.
pub open spec fn backoff_secs(streak: nat) -> u64 {
    if streak == 0 {
        BACKOFF_SECS[0]
    } else if streak < BACKOFF_SECS.len() {
        BACKOFF_SECS[streak - 1]
    } else {
        BACKOFF_SECS[BACKOFF_SECS.len() - 1]
    }
}

/// How many seconds to wait after `failure_streak` failures in a row.
pub fn failure_backoff_delay(failure_streak: u32) -> (r: u64)
    ensures
        r == backoff_secs(failure_streak as nat),
{
    let mut step: usize = 0;
    if failure_streak > 0 {
        step = BACKOFF_SECS.len() - 1;
        if (failure_streak as u64 - 1) < step as u64 {
            step = (failure_streak - 1) as usize;
        }
    }
    BACKOFF_SECS[step]
}

/// The IDs of posts.
pub open spec fn post_ids(posts: Seq<Submission>) -> Seq<Seq<char>> {
    Seq::new(posts.len(), |i: int| posts[i].id@)
}

/// Those of `posts` that were not remembered when their turn came.
pub open spec fn new_posts(remembered: Seq<Seq<char>>, posts: Seq<Submission>) -> Seq<Submission>
    decreases posts.len(),
{
    if posts.len() == 0 {
        Seq::empty()
    } else {
        let before = posts.take(posts.len() - 1);
        let last = posts[posts.len() - 1];
        if seen::remembered_all(remembered, post_ids(before)).contains(last.id@) {
            new_posts(remembered, before)
        } else {
            new_posts(remembered, before).push(last)
        }
    }
}

/// What the bot keeps from one poll to the next.
pub struct PollState {
    /// How many polls in a row have failed.
    pub failure_streak: u32,
    pub seen: SeenPosts,
}

/// What has become of a poll.
pub enum PollEvent {
    Fetched(Vec<Submission>),
    /// The session has expired.
    Unauthorized,
    Failed,
    TimedOut,
}

/// What is to be done after a poll.
pub enum PollAction {
    /// Handle these posts in turn, and poll again after the usual time.
    Handle(Vec<Submission>),
    /// Open a new session and poll again at once.
    RefreshSession,
    /// Poll again after this many seconds.
    BackOff(u64),
}

impl PollState {
    /// No poll has been made.
    pub fn new() -> (r: PollState)
        ensures
            r.failure_streak == 0,
            r.seen.wf(),
            r.seen@ == Seq::<Seq<char>>::empty(),
    {
        PollState { failure_streak: 0, seen: SeenPosts::new() }
    }

    /// Counts a failure and tells how long to wait.
    fn fail(&mut self) -> (r: u64)
        ensures
            final(self).failure_streak == (if old(self).failure_streak < u32::MAX {
                old(self).failure_streak + 1
            } else {
                u32::MAX as int
            }),
            final(self).seen == old(self).seen,
            r == backoff_secs(final(self).failure_streak as nat),
    {
        if self.failure_streak < u32::MAX {
            self.failure_streak = self.failure_streak + 1;
        }
        failure_backoff_delay(self.failure_streak)
    }

    /// Decides what is to be done after a poll.
    pub fn step(&mut self, event: PollEvent) -> (r: PollAction)
        requires
            old(self).seen.wf(),
        ensures
            final(self).seen.wf(),
            match event {
                PollEvent::Fetched(posts) => {
                    &&& r matches PollAction::Handle(fresh)
                    &&& fresh@ == new_posts(old(self).seen@, posts@)
                    &&& final(self).failure_streak == 0
                    &&& final(self).seen@ == seen::remembered_all(
                        old(self).seen@,
                        post_ids(posts@),
                    )
                },
                PollEvent::Unauthorized => {
                    &&& r is RefreshSession
                    &&& final(self).failure_streak == 0
                    &&& final(self).seen == old(self).seen
                },
                PollEvent::Failed | PollEvent::TimedOut => {
                    &&& r == PollAction::BackOff(
                        backoff_secs(final(self).failure_streak as nat),
                    )
                    &&& final(self).failure_streak == (if old(self).failure_streak < u32::MAX {
                        old(self).failure_streak + 1
                    } else {
                        u32::MAX as int
                    })
                    &&& final(self).seen == old(self).seen
                },
            },
    {
        match event {
            PollEvent::Fetched(posts) => {
                self.failure_streak = 0;
                PollAction::Handle(select_new(posts, &mut self.seen))
            },
            PollEvent::Unauthorized => {
                self.failure_streak = 0;
                PollAction::RefreshSession
            },
            PollEvent::Failed => PollAction::BackOff(self.fail()),
            PollEvent::TimedOut => PollAction::BackOff(self.fail()),
        }
    }
}

/// Remembers posts one after the other and keeps those that are new.
pub fn select_new(posts: Vec<Submission>, seen: &mut SeenPosts) -> (r: Vec<Submission>)
    requires
        old(seen).wf(),
    ensures
        final(seen).wf(),
        final(seen)@ == seen::remembered_all(old(seen)@, post_ids(posts@)),
        r@ == new_posts(old(seen)@, posts@),
{
    let ghost all = posts@;
    let ghost start = seen@;
    let mut r: Vec<Submission> = Vec::new();
    for post in it: posts.into_iter()
        invariant
            it.seq() == all,
            seen.wf(),
            seen@ == seen::remembered_all(start, post_ids(all.take(it.index()))),
            r@ == new_posts(start, all.take(it.index())),
    {
        let ghost n = it.index();
        proof {
            let now = all.take(n + 1);
            assert(now.take(n) == all.take(n));
            assert(post_ids(now).take(n) == post_ids(all.take(n)));
        }
        if seen::remember_seen(post.id.clone(), seen) {
            r.push(post);
        }
    }
    assert(all.take(all.len() as int) == all);
    r
}

/// Whether every post that one request can fetch was new, so that some may have been missed.
pub fn may_have_missed_posts(num_new: usize) -> (r: bool)
    ensures
        r == (num_new == LISTING_LIMIT),
{
    num_new == LISTING_LIMIT as usize
}

/// More failures in a row never make the wait shorter, and it is never longer than a minute.
pub proof fn law_backoff_grows(fewer: nat, more: nat)
    requires
        fewer <= more,
    ensures
        POLL_INTERVAL_SECS <= backoff_secs(fewer) <= backoff_secs(more) <= 60,
{
}

/// Two polls are like one poll that fetched the posts of both.
pub proof fn law_polls_add_up(
    start: Seq<Seq<char>>,
    first: Seq<Submission>,
    second: Seq<Submission>,
)
    ensures
        ({
            let between = seen::remembered_all(start, post_ids(first));
            &&& new_posts(start, first + second) == new_posts(start, first) + new_posts(
                between,
                second,
            )
            &&& seen::remembered_all(start, post_ids(first + second)) == seen::remembered_all(
                between,
                post_ids(second),
            )
        }),
    decreases second.len(),
{
    let both = first + second;
    if second.len() == 0 {
        assert(both == first);
    } else {
        let cut = second.take(second.len() - 1);
        law_polls_add_up(start, first, cut);
        assert(both.take(both.len() - 1) == first + cut);
        assert(both[both.len() - 1] == second[second.len() - 1]);
        assert(post_ids(both).take(both.len() - 1) == post_ids(first + cut));
        assert(post_ids(second).take(second.len() - 1) == post_ids(cut));
    }
}

/// The posts that were new are remembered, unless more of them came than there is room for.
pub proof fn law_new_posts_remembered(start: Seq<Seq<char>>, posts: Seq<Submission>, i: int)
    requires
        seen::is_cache(start),
        0 <= i < new_posts(start, posts).len() <= i + seen::SEEN_ID_CAPACITY,
    ensures
        seen::remembered_all(start, post_ids(posts)).contains(new_posts(start, posts)[i].id@),
{
    lemma_new_post_from_end(start, posts, i);
}

/// How far from the end of what is remembered a new post is.
proof fn lemma_new_post_from_end(start: Seq<Seq<char>>, posts: Seq<Submission>, i: int)
    requires
        seen::is_cache(start),
        0 <= i < new_posts(start, posts).len() <= i + seen::SEEN_ID_CAPACITY,
    ensures
        ({
            let now = seen::remembered_all(start, post_ids(posts));
            let fresh = new_posts(start, posts);
            exists|k: int|
                0 <= k < now.len() && #[trigger] now[k] == fresh[i].id@ && now.len() - k
                    <= fresh.len() - i
        }),
    decreases posts.len(),
{
    let now = seen::remembered_all(start, post_ids(posts));
    let fresh = new_posts(start, posts);
    if posts.len() > 0 {
        let cut = posts.take(posts.len() - 1);
        let last = posts[posts.len() - 1];
        let before = seen::remembered_all(start, post_ids(cut));
        let earlier = new_posts(start, cut);
        assert(post_ids(posts).take(posts.len() - 1) == post_ids(cut));
        seen::law_remembered_is_cache(start, post_ids(cut));
        if i < earlier.len() {
            lemma_new_post_from_end(start, cut, i);
            let k = choose|k: int|
                0 <= k < before.len() && #[trigger] before[k] == earlier[i].id@ && before.len() - k
                    <= earlier.len() - i;
            if before.contains(last.id@) || before.len() < seen::SEEN_ID_CAPACITY {
                assert(now[k] == fresh[i].id@);
            } else {
                assert(now[k - 1] == fresh[i].id@);
            }
        } else {
            assert(now[now.len() - 1] == last.id@);
        }
    }
}

/// No post is handled twice, in one poll or over several of them, unless at least as many other
/// new posts have come in between as there is room for.
pub proof fn law_no_post_handled_twice(
    start: Seq<Seq<char>>,
    posts: Seq<Submission>,
    a: int,
    b: int,
)
    requires
        seen::is_cache(start),
        0 <= a < b < new_posts(start, posts).len(),
        b - a <= seen::SEEN_ID_CAPACITY,
    ensures
        new_posts(start, posts)[a].id@ != new_posts(start, posts)[b].id@,
    decreases posts.len(),
{
    if posts.len() > 0 {
        let cut = posts.take(posts.len() - 1);
        let earlier = new_posts(start, cut);
        if b < earlier.len() {
            law_no_post_handled_twice(start, cut, a, b);
        } else {
            law_new_posts_remembered(start, cut, a);
        }
    }
}

/// A single post is handled exactly if it is not remembered, and it is remembered from then on.
pub proof fn law_single_post(start: Seq<Seq<char>>, post: Submission)
    ensures
        new_posts(start, seq![post]) == (if start.contains(post.id@) {
            Seq::empty()
        } else {
            seq![post]
        }),
        new_posts(start, Seq::empty()) == Seq::<Submission>::empty(),
        post_ids(seq![post]) == seq![post.id@],
        seen::remembered_all(start, post_ids(seq![post])) == seen::remembered(start, post.id@),
{
    let one = seq![post];
    assert(one.take(0) == Seq::<Submission>::empty());
    assert(post_ids(one.take(0)) == Seq::<Seq<char>>::empty());
    assert(post_ids(one) == seq![post.id@]);
    assert(post_ids(one).take(0) == Seq::<Seq<char>>::empty());
    assert(seen::remembered_all(start, Seq::empty()) == start);
    assert(new_posts(start, one.take(0)) == Seq::<Submission>::empty());
    assert(Seq::<Submission>::empty().push(post) == one);
}

/// Every post is handled that was neither remembered before the poll nor fetched twice in it.
pub proof fn law_every_unseen_post_handled(
    start: Seq<Seq<char>>,
    posts: Seq<Submission>,
    j: int,
)
    requires
        0 <= j < posts.len(),
        !start.contains(posts[j].id@),
        forall|i: int| 0 <= i < j ==> (#[trigger] posts[i]).id@ != posts[j].id@,
    ensures
        new_posts(start, posts).contains(posts[j]),
    decreases posts.len(),
{
    let n = posts.len() - 1;
    let cut = posts.take(n);
    let last = posts[n];
    if j < n {
        assert forall|i: int| 0 <= i < j implies (#[trigger] cut[i]).id@ != cut[j].id@ by {
            assert(posts[i].id@ != posts[j].id@);
        }
        law_every_unseen_post_handled(start, cut, j);
        let earlier = new_posts(start, cut);
        let k = earlier.index_of(posts[j]);
        assert(new_posts(start, posts)[k] == posts[j]);
    } else {
        let ids = post_ids(cut);
        if seen::remembered_all(start, ids).contains(last.id@) {
            lemma_remembered_was_seen(start, ids, last.id@);
            let i = ids.index_of(last.id@);
            assert(posts[i].id@ == last.id@);
        }
        assert(new_posts(start, posts).last() == posts[j]);
    }
}

/// What is remembered was remembered before or has been seen since.
proof fn lemma_remembered_was_seen(start: Seq<Seq<char>>, ids: Seq<Seq<char>>, id: Seq<char>)
    requires
        seen::remembered_all(start, ids).contains(id),
    ensures
        start.contains(id) || ids.contains(id),
    decreases ids.len(),
{
    if ids.len() > 0 {
        let n = ids.len() - 1;
        let cut = ids.take(n);
        let before = seen::remembered_all(start, cut);
        let now = seen::remembered_all(start, ids);
        let last = ids[n];
        let k = now.index_of(id);
        if id == last {
            assert(ids[n] == id);
        } else {
            assert(before.contains(id)) by {
                if before.contains(last) {
                } else if before.len() < seen::SEEN_ID_CAPACITY {
                    assert(before[k] == id);
                } else {
                    assert(before[k + 1] == id);
                }
            }
            lemma_remembered_was_seen(start, cut, id);
            if cut.contains(id) {
                let i = cut.index_of(id);
                assert(ids[i] == id);
            }
        }
    }
}

/// Only posts that were fetched are handled.
pub proof fn law_only_fetched_posts_handled(
    start: Seq<Seq<char>>,
    posts: Seq<Submission>,
    i: int,
)
    requires
        0 <= i < new_posts(start, posts).len(),
    ensures
        posts.contains(new_posts(start, posts)[i]),
        new_posts(start, posts).len() <= posts.len(),
    decreases posts.len(),
{
    if posts.len() > 0 {
        let n = posts.len() - 1;
        let cut = posts.take(n);
        let earlier = new_posts(start, cut);
        if earlier.len() > 0 {
            law_only_fetched_posts_handled(start, cut, if i < earlier.len() {
                i
            } else {
                0
            });
        }
        if i < earlier.len() {
            let k = cut.index_of(earlier[i]);
            assert(posts[k] == earlier[i]);
        } else {
            assert(posts[n] == new_posts(start, posts)[i]);
        }
    }
}

/// The wait starts at four seconds, doubles with each of the next three failures in a row, and is a
/// minute after five or more.
pub proof fn law_backoff_doubles(streak: nat)
    ensures
        streak <= 1 ==> backoff_secs(streak) == 4 && backoff_secs(streak) == POLL_INTERVAL_SECS,
        1 <= streak < 4 ==> backoff_secs(streak + 1) == 2 * backoff_secs(streak),
        streak >= 5 ==> backoff_secs(streak) == 60,
{
}

} // verus!
