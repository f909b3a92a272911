//! The posts that were seen last, so that none is handled twice.
use crate::text;
use std::collections::VecDeque;
use vstd::hash_set::StringHashSet;
use vstd::prelude::*;

verus! {

/// How many posts are remembered.
pub const SEEN_ID_CAPACITY: usize = 500;

/// The IDs of the posts that were seen last.
pub struct SeenPosts {
    ids: StringHashSet,
    order: VecDeque<String>,
}

impl View for SeenPosts {
    type V = Seq<Seq<char>>;

    /// The IDs that are remembered, the oldest first.
    closed spec fn view(&self) -> Seq<Seq<char>> {
        text::texts(self.order@)
    }
}

/// `seen` after the post `id` was seen: a new post is added, and drives out the oldest one if
/// there is no room.
pub open spec fn remembered(seen: Seq<Seq<char>>, id: Seq<char>) -> Seq<Seq<char>> {
    if seen.contains(id) {
        seen
    } else if seen.len() < SEEN_ID_CAPACITY {
        seen.push(id)
    } else {
        seen.push(id).skip(1)
    }
}

/// `seen` after the posts `ids` were seen one after the other.
pub open spec fn remembered_all(seen: Seq<Seq<char>>, ids: Seq<Seq<char>>) -> Seq<Seq<char>>
    decreases ids.len(),
{
    if ids.len() == 0 {
        seen
    } else {
        remembered(remembered_all(seen, ids.take(ids.len() - 1)), ids[ids.len() - 1])
    }
}

/// How many of the posts `ids`, seen one after the other, are new when their turn comes.
pub open spec fn new_count(seen: Seq<Seq<char>>, ids: Seq<Seq<char>>) -> nat
    decreases ids.len(),
{
    if ids.len() == 0 {
        0
    } else {
        let before = ids.take(ids.len() - 1);
        if remembered_all(seen, before).contains(ids[ids.len() - 1]) {
            new_count(seen, before)
        } else {
            new_count(seen, before) + 1
        }
    }
}

/// No more IDs than there is room for, and none of them twice.
pub open spec fn is_cache(seen: Seq<Seq<char>>) -> bool {
    seen.len() <= SEEN_ID_CAPACITY && seen.no_duplicates()
}

impl SeenPosts {
    /// The set holds exactly the IDs in the queue, each of which is there once.
    pub closed spec fn wf(&self) -> bool {
        &&& is_cache(self@)
        &&& forall|id: Seq<char>| self.ids@.contains(id) <==> self@.contains(id)
    }

    /// No posts were seen yet.
    pub fn new() -> (r: SeenPosts)
        ensures
            r.wf(),
            r@ == Seq::<Seq<char>>::empty(),
    {
        let r = SeenPosts {
            ids: StringHashSet::new(),
            order: VecDeque::with_capacity(SEEN_ID_CAPACITY),
        };
        assert(r@ == Seq::<Seq<char>>::empty());
        r
    }

    /// How many posts are remembered.
    pub fn len(&self) -> (r: usize)
        ensures
            r == self@.len(),
    {
        self.order.len()
    }
}

/// Remembers a post, and tells whether it is new. The oldest post is forgotten if there is no room.
pub fn remember_seen(id: String, seen: &mut SeenPosts) -> (r: bool)
    requires
        old(seen).wf(),
    ensures
        final(seen).wf(),
        final(seen)@ == remembered(old(seen)@, id@),
        r == !old(seen)@.contains(id@),
{
    let ghost before = seen@;
    let copy = id.clone();
    if !seen.ids.insert(copy) {
        assert(seen.ids@ =~= old(seen).ids@);
        return false;
    }
    seen.order.push_back(id);
    assert(seen@ == before.push(id@));
    let ghost full = before.push(id@);
    proof {
        lemma_push(before, id@);
    }
    if seen.order.len() > SEEN_ID_CAPACITY {
        if let Some(evicted) = seen.order.pop_front() {
            assert(full[0] == evicted@);
            assert(seen@ == full.skip(1));
            seen.ids.remove(evicted.as_str());
            proof {
                lemma_skip(full);
            }
        }
    }
    true
}

/// Adding an ID that is not there keeps all IDs different.
proof fn lemma_push(seen: Seq<Seq<char>>, id: Seq<char>)
    requires
        seen.no_duplicates(),
        !seen.contains(id),
    ensures
        seen.push(id).no_duplicates(),
        forall|x: Seq<char>| #[trigger]
            seen.push(id).contains(x) <==> seen.contains(x) || x == id,
{
    let full = seen.push(id);
    assert forall|x: Seq<char>| seen.contains(x) || x == id implies #[trigger] full.contains(x) by {
        if x == id {
            assert(full[seen.len() as int] == x);
        } else {
            assert(full[seen.index_of(x)] == x);
        }
    }
    assert forall|x: Seq<char>| #[trigger] full.contains(x) implies seen.contains(x) || x == id by {
        let i = full.index_of(x);
        assert(i < seen.len() ==> seen[i] == x);
    }
    assert forall|i: int, j: int| 0 <= i < full.len() && 0 <= j < full.len() && i != j implies
        full[i] != full[j] by {
        if i < seen.len() {
            assert(seen.contains(seen[i]));
        }
        if j < seen.len() {
            assert(seen.contains(seen[j]));
        }
    }
}

/// Dropping the oldest of different IDs drops that ID and no other.
proof fn lemma_skip(full: Seq<Seq<char>>)
    requires
        full.no_duplicates(),
        full.len() > 0,
    ensures
        full.skip(1).no_duplicates(),
        forall|x: Seq<char>| #[trigger]
            full.skip(1).contains(x) <==> full.contains(x) && x != full[0],
{
    let rest = full.skip(1);
    assert forall|x: Seq<char>| full.contains(x) && x != full[0] implies #[trigger] rest.contains(
        x,
    ) by {
        let i = full.index_of(x);
        assert(rest[i - 1] == x);
    }
    assert forall|x: Seq<char>| #[trigger] rest.contains(x) implies full.contains(x) && x
        != full[0] by {
        let i = rest.index_of(x);
        assert(full[i + 1] == x);
    }
}

/// What is remembered stays a cache: bounded, and without duplicates.
pub proof fn law_remembered_is_cache(seen: Seq<Seq<char>>, ids: Seq<Seq<char>>)
    requires
        is_cache(seen),
    ensures
        is_cache(remembered_all(seen, ids)),
    decreases ids.len(),
{
    if ids.len() > 0 {
        let before = remembered_all(seen, ids.take(ids.len() - 1));
        law_remembered_is_cache(seen, ids.take(ids.len() - 1));
        let id = ids[ids.len() - 1];
        if !before.contains(id) {
            lemma_push(before, id);
            lemma_skip(before.push(id));
        }
    }
}

/// A post that was just seen is not new.
pub proof fn law_just_seen(seen: Seq<Seq<char>>, id: Seq<char>)
    requires
        is_cache(seen),
    ensures
        remembered(seen, id).contains(id),
{
    if !seen.contains(id) {
        let full = seen.push(id);
        assert(full.last() == id);
        if seen.len() >= SEEN_ID_CAPACITY {
            assert(full.skip(1).last() == id);
        }
    }
}

/// Seeing a post forgets at most the oldest one, and that only if the post is new and the cache is
/// full.
pub proof fn law_only_oldest_forgotten(seen: Seq<Seq<char>>, id: Seq<char>, other: Seq<char>)
    requires
        is_cache(seen),
        seen.contains(other),
        !remembered(seen, id).contains(other),
    ensures
        other == seen[0],
        seen.len() == SEEN_ID_CAPACITY,
        !seen.contains(id),
{
    lemma_push(seen, id);
    lemma_skip(seen.push(id));
}

/// A new post stays remembered until as many newer posts have come as there is room for, however
/// often posts that are remembered come up in between.
pub proof fn law_remembered_long_enough(
    seen: Seq<Seq<char>>,
    id: Seq<char>,
    ids: Seq<Seq<char>>,
)
    requires
        is_cache(seen),
        !seen.contains(id),
        new_count(remembered(seen, id), ids) < SEEN_ID_CAPACITY,
    ensures
        remembered_all(remembered(seen, id), ids).contains(id),
{
    lemma_distance_from_end(seen, id, ids);
}

/// How far from the end a new post is after others were seen.
proof fn lemma_distance_from_end(seen: Seq<Seq<char>>, id: Seq<char>, ids: Seq<Seq<char>>)
    requires
        is_cache(seen),
        !seen.contains(id),
        new_count(remembered(seen, id), ids) < SEEN_ID_CAPACITY,
    ensures
        ({
            let start = remembered(seen, id);
            let now = remembered_all(start, ids);
            exists|i: int|
                0 <= i < now.len() && #[trigger] now[i] == id && now.len() - i <= new_count(
                    start,
                    ids,
                ) + 1 && now.len() <= SEEN_ID_CAPACITY
        }),
    decreases ids.len(),
{
    let start = remembered(seen, id);
    let now = remembered_all(start, ids);
    if ids.len() == 0 {
        assert(start.last() == id);
        assert(now[now.len() - 1] == id);
    } else {
        let others = ids.take(ids.len() - 1);
        let before = remembered_all(start, others);
        lemma_distance_from_end(seen, id, others);
        let i = choose|i: int|
            0 <= i < before.len() && #[trigger] before[i] == id && before.len() - i <= new_count(
                start,
                others,
            ) + 1 && before.len() <= SEEN_ID_CAPACITY;
        let next = ids[ids.len() - 1];
        if before.contains(next) {
            assert(now[i] == id);
        } else if before.len() < SEEN_ID_CAPACITY {
            assert(now[i] == id);
        } else {
            assert(now[i - 1] == id);
        }
    }
}

/// Whatever is in use is a cache.
pub proof fn law_in_use_is_cache(seen: SeenPosts)
    requires
        seen.wf(),
    ensures
        is_cache(seen@),
{
}

/// A post that is remembered changes nothing. A new one comes last, and everything else keeps its
/// order, less the oldest if five hundred were remembered.
pub proof fn law_new_post_comes_last(seen: Seq<Seq<char>>, id: Seq<char>)
    requires
        is_cache(seen),
    ensures
        seen.contains(id) ==> remembered(seen, id) == seen,
        !seen.contains(id) && seen.len() < 500 ==> remembered(seen, id) == seen + seq![id],
        !seen.contains(id) && seen.len() == 500 ==> remembered(seen, id) == seen.skip(1) + seq![
            id,
        ],
{
    assert(seen.push(id) == seen + seq![id]);
    if seen.len() > 0 {
        assert(seen.push(id).skip(1) == seen.skip(1) + seq![id]);
    }
}

/// Posts are seen one after the other: none of them changes nothing, and a further one is seen
/// after all the others.
pub proof fn law_seen_one_by_one(seen: Seq<Seq<char>>, ids: Seq<Seq<char>>, id: Seq<char>)
    ensures
        remembered_all(seen, Seq::empty()) == seen,
        remembered_all(seen, ids.push(id)) == remembered(remembered_all(seen, ids), id),
        new_count(seen, Seq::empty()) == 0,
        new_count(seen, ids.push(id)) == new_count(seen, ids) + (if remembered_all(
            seen,
            ids,
        ).contains(id) {
            0int
        } else {
            1
        }),
{
    assert(ids.push(id).take(ids.len() as int) == ids);
}

/// There is room for five hundred posts: that many different ones are all remembered, in order.
pub proof fn law_room_for_five_hundred(ids: Seq<Seq<char>>)
    requires
        ids.len() <= 500,
        ids.no_duplicates(),
    ensures
        remembered_all(Seq::empty(), ids) == ids,
    decreases ids.len(),
{
    if ids.len() > 0 {
        let cut = ids.take(ids.len() - 1);
        let last = ids[ids.len() - 1];
        law_room_for_five_hundred(cut);
        assert(!cut.contains(last)) by {
            if cut.contains(last) {
                let i = cut.index_of(last);
                assert(ids[i] == last);
            }
        }
        assert(cut.push(last) == ids);
    } else {
        assert(ids == Seq::<Seq<char>>::empty());
    }
}

/// There is room for no more than five hundred posts, and no post is remembered twice.
pub proof fn law_cache_bounded(seen: SeenPosts)
    requires
        seen.wf(),
    ensures
        seen@.len() <= 500,
        forall|i: int, j: int| 0 <= i < j < seen@.len() ==> seen@[i] != seen@[j],
{
}

} // verus!
