//! The topic index as mathematics.
//!
//! [`Index`] is what the broker's state is to a contract: who follows which
//! topic, in both directions, which queue belongs to which subscriber, and
//! what each queue has accepted so far. The transitions of the broker are
//! functions on it, and the laws at the end of this file are proved of those
//! functions.

use crate::event::{Event, EventView};
use std::sync::Arc;
use tokio::sync::mpsc::Sender;
use vstd::prelude::*;

verus! {

/// The topics that a list of topic names stands for: a name that occurs
/// twice counts once.
pub open spec fn topic_set(topics: Seq<String>) -> Set<Seq<char>> {
    Set::new(|t: Seq<char>| exists|i: int| 0 <= i < topics.len() && (#[trigger] topics[i])@ == t)
}

/// The broker's state.
pub struct Index {
    /// For each registered subscriber, the topics it asked for.
    pub topics_by_id: Map<u64, Set<Seq<char>>>,
    /// For each topic that somebody follows, the subscribers that follow it.
    pub ids_by_topic: Map<Seq<char>, Set<u64>>,
    /// For each registered subscriber, the sending half of its outbound
    /// queue: the handle that events for this subscriber are offered to.
    pub queues: Map<u64, Sender<Arc<Event>>>,
    /// For each registered subscriber, the events which its queue has
    /// accepted from the broker, oldest first.
    pub accepted: Map<u64, Seq<EventView>>,
}

impl Index {
    /// The index of a broker that nobody has subscribed to.
    pub open spec fn empty() -> Index {
        Index {
            topics_by_id: Map::empty(),
            ids_by_topic: Map::empty(),
            queues: Map::empty(),
            accepted: Map::empty(),
        }
    }

    /// Whether `id` has an outbound queue, that is, whether it is registered.
    pub open spec fn is_subscribed(self, id: u64) -> bool {
        self.queues.contains_key(id)
    }

    /// Whether the topic's entry lists `id`.
    pub open spec fn lists(self, topic: Seq<char>, id: u64) -> bool {
        self.ids_by_topic.contains_key(topic) && self.ids_by_topic[topic].contains(id)
    }

    /// Whether the subscriber's entry names `topic`.
    pub open spec fn follows(self, id: u64, topic: Seq<char>) -> bool {
        self.topics_by_id.contains_key(id) && self.topics_by_id[id].contains(topic)
    }

    /// The subscribers of `topic`; none where the topic has no entry.
    pub open spec fn subscribers(self, topic: Seq<char>) -> Set<u64> {
        if self.ids_by_topic.contains_key(topic) {
            self.ids_by_topic[topic]
        } else {
            Set::empty()
        }
    }

    /// The two directions of the index mirror each other, a subscriber has a
    /// queue, and a record of what that queue accepted, exactly when it has a
    /// topic entry, and no topic entry is empty.
    pub open spec fn consistent(self) -> bool {
        &&& forall|id: u64, topic: Seq<char>|
            #![trigger self.lists(topic, id)]
            #![trigger self.follows(id, topic)]
            self.lists(topic, id) <==> self.follows(id, topic)
        &&& self.queues.dom() =~= self.topics_by_id.dom()
        &&& self.accepted.dom() =~= self.topics_by_id.dom()
        &&& forall|topic: Seq<char>| #[trigger]
            self.ids_by_topic.contains_key(topic) ==> !self.ids_by_topic[topic].is_empty()
    }

    /// Registers `id` for `topics`, with `sender` as the sending half of its
    /// queue, which has accepted nothing yet. A topic gets an entry when its
    /// first subscriber arrives.
    pub open spec fn subscribe(
        self,
        id: u64,
        topics: Set<Seq<char>>,
        sender: Sender<Arc<Event>>,
    ) -> Index {
        Index {
            topics_by_id: self.topics_by_id.insert(id, topics),
            ids_by_topic: Map::new(
                |t: Seq<char>| self.ids_by_topic.contains_key(t) || topics.contains(t),
                |t: Seq<char>|
                    if topics.contains(t) {
                        self.subscribers(t).insert(id)
                    } else {
                        self.ids_by_topic[t]
                    },
            ),
            queues: self.queues.insert(id, sender),
            accepted: self.accepted.insert(id, Seq::empty()),
        }
    }

    /// Removes every subscriber in `ids` from both directions of the index,
    /// together with its queue. A topic that loses its last subscriber loses
    /// its entry.
    pub open spec fn evict(self, ids: Set<u64>) -> Index {
        Index {
            topics_by_id: self.topics_by_id.remove_keys(ids),
            ids_by_topic: Map::new(
                |t: Seq<char>|
                    self.ids_by_topic.contains_key(t) && !self.ids_by_topic[t].difference(
                        ids,
                    ).is_empty(),
                |t: Seq<char>| self.ids_by_topic[t].difference(ids),
            ),
            queues: self.queues.remove_keys(ids),
            accepted: self.accepted.remove_keys(ids),
        }
    }

    /// Releases `id`. Nothing changes where `id` has no queue: it was
    /// released before.
    pub open spec fn unsubscribe(self, id: u64) -> Index {
        if self.is_subscribed(id) {
            self.evict(set![id])
        } else {
            self
        }
    }

    /// Appends `event` to what the queue of every subscriber in `ids` has
    /// accepted. No queue changes hands.
    pub open spec fn accept(self, ids: Set<u64>, event: EventView) -> Index {
        Index {
            topics_by_id: self.topics_by_id,
            ids_by_topic: self.ids_by_topic,
            queues: self.queues,
            accepted: Map::new(
                |id: u64| self.accepted.contains_key(id),
                |id: u64|
                    if ids.contains(id) {
                        self.accepted[id].push(event)
                    } else {
                        self.accepted[id]
                    },
            ),
        }
    }

    /// Publishes `event` to `topic` where the queues of the subscribers in
    /// `refused` turn it down: every other subscriber of the topic gets the
    /// event, and those in `refused` are evicted.
    pub open spec fn publish(self, topic: Seq<char>, event: EventView, refused: Set<u64>) -> Index {
        self.accept(self.subscribers(topic).difference(refused), event).evict(refused)
    }
}

/// The empty index is consistent.
pub proof fn empty_is_consistent()
    ensures
        Index::empty().consistent(),
{
    let e = Index::empty();
    assert forall|id: u64, topic: Seq<char>| e.lists(topic, id) <==> e.follows(id, topic) by {}
}

/// Registering a subscriber that is not registered yet keeps the index
/// consistent.
pub proof fn subscribe_keeps_consistent(
    s: Index,
    id: u64,
    topics: Set<Seq<char>>,
    sender: Sender<Arc<Event>>,
)
    requires
        s.consistent(),
        !s.is_subscribed(id),
    ensures
        s.subscribe(id, topics, sender).consistent(),
{
    let post = s.subscribe(id, topics, sender);
    assert forall|other: u64, topic: Seq<char>| post.lists(topic, other) <==> post.follows(
        other,
        topic,
    ) by {
        assert(s.lists(topic, other) <==> s.follows(other, topic));
    }
    assert forall|topic: Seq<char>| #[trigger]
        post.ids_by_topic.contains_key(topic) implies !post.ids_by_topic[topic].is_empty() by {}
}

/// Evicting any set of subscribers keeps the index consistent, and leaves
/// none of them in it.
pub proof fn evict_keeps_consistent(s: Index, ids: Set<u64>)
    requires
        s.consistent(),
    ensures
        s.evict(ids).consistent(),
        forall|id: u64| ids.contains(id) ==> !#[trigger] s.evict(ids).is_subscribed(id),
        forall|id: u64, topic: Seq<char>|
            ids.contains(id) ==> !#[trigger] s.evict(ids).lists(topic, id),
{
    let post = s.evict(ids);
    assert forall|id: u64, topic: Seq<char>| post.lists(topic, id) <==> post.follows(
        id,
        topic,
    ) by {
        if s.lists(topic, id) && !ids.contains(id) {
            assert(s.ids_by_topic[topic].difference(ids).contains(id));
        }
    }
}

/// Releasing a subscriber keeps the index consistent, whether or not the
/// subscriber was registered.
pub proof fn unsubscribe_keeps_consistent(s: Index, id: u64)
    requires
        s.consistent(),
    ensures
        s.unsubscribe(id).consistent(),
        !s.unsubscribe(id).is_subscribed(id),
        forall|topic: Seq<char>| !#[trigger] s.unsubscribe(id).lists(topic, id),
{
    evict_keeps_consistent(s, set![id]);
    if !s.is_subscribed(id) {
        assert forall|topic: Seq<char>| !#[trigger] s.lists(topic, id) by {}
    }
}

/// Releasing a subscriber a second time changes nothing.
pub proof fn unsubscribe_twice(s: Index, id: u64)
    ensures
        s.unsubscribe(id).unsubscribe(id) == s.unsubscribe(id),
{
}

/// In a consistent index, evicting nobody changes nothing.
pub proof fn evict_nobody(s: Index)
    requires
        s.consistent(),
    ensures
        s.evict(Set::empty()) == s,
{
    let post = s.evict(Set::empty());
    assert(post.topics_by_id =~= s.topics_by_id);
    assert(post.queues =~= s.queues);
    assert(post.accepted =~= s.accepted);
    assert forall|t: Seq<char>| s.ids_by_topic.contains_key(t) implies #[trigger]
        s.ids_by_topic[t].difference(Set::empty()) =~= s.ids_by_topic[t] by {}
    assert forall|t: Seq<char>|
        post.ids_by_topic.contains_key(t) <==> s.ids_by_topic.contains_key(t) by {}
    assert(post.ids_by_topic =~= s.ids_by_topic);
}

/// Evicting one set of subscribers and then one more subscriber is evicting
/// them all at once.
pub proof fn evict_one_more(s: Index, ids: Set<u64>, id: u64)
    requires
        s.consistent(),
    ensures
        s.evict(ids).unsubscribe(id) == s.evict(ids.insert(id)),
{
    let mid = s.evict(ids);
    let all = s.evict(ids.insert(id));
    evict_keeps_consistent(s, ids);
    if mid.is_subscribed(id) {
        let post = mid.evict(set![id]);
        assert(post.topics_by_id =~= all.topics_by_id);
        assert(post.queues =~= all.queues);
        assert(post.accepted =~= all.accepted);
        assert forall|t: Seq<char>| s.ids_by_topic.contains_key(t) implies #[trigger]
            s.ids_by_topic[t].difference(ids).difference(set![id]) =~= s.ids_by_topic[t].difference(
            ids.insert(id),
        ) by {}
        assert(post.ids_by_topic =~= all.ids_by_topic);
    } else {
        assert forall|t: Seq<char>| !#[trigger] mid.lists(t, id) by {}
        assert(mid.topics_by_id =~= all.topics_by_id);
        assert forall|t: Seq<char>| s.ids_by_topic.contains_key(t) implies #[trigger]
            s.ids_by_topic[t].difference(ids) =~= s.ids_by_topic[t].difference(
            ids.insert(id),
        ) by {
            assert(!mid.lists(t, id));
        }
        assert(mid.ids_by_topic =~= all.ids_by_topic);
    }
}

/// Events that queues accept change no registration: the index stays
/// consistent.
pub proof fn accept_keeps_consistent(s: Index, ids: Set<u64>, event: EventView)
    requires
        s.consistent(),
    ensures
        s.accept(ids, event).consistent(),
{
    let taken = s.accept(ids, event);
    assert forall|id: u64, t: Seq<char>| taken.lists(t, id) <==> taken.follows(id, t) by {
        assert(s.lists(t, id) <==> s.follows(id, t));
    }
}

/// Publishing keeps the index consistent, whichever queues refuse the event.
pub proof fn publish_keeps_consistent(
    s: Index,
    topic: Seq<char>,
    event: EventView,
    refused: Set<u64>,
)
    requires
        s.consistent(),
    ensures
        s.publish(topic, event, refused).consistent(),
{
    let taken = s.accept(s.subscribers(topic).difference(refused), event);
    accept_keeps_consistent(s, s.subscribers(topic).difference(refused), event);
    evict_keeps_consistent(taken, refused);
}

/// Publishing to a topic that nobody follows changes nothing.
pub proof fn publish_without_subscribers(
    s: Index,
    topic: Seq<char>,
    event: EventView,
    refused: Set<u64>,
)
    requires
        s.consistent(),
        s.subscribers(topic).is_empty(),
        refused.subset_of(s.subscribers(topic)),
    ensures
        s.publish(topic, event, refused) == s,
{
    assert(refused =~= Set::empty());
    let taken = s.accept(s.subscribers(topic).difference(refused), event);
    assert(taken.accepted =~= s.accepted);
    evict_nobody(s);
}

/// A registered subscriber whose queue does not refuse a publication stays
/// registered with the same topics and the same queue. Its queue gains the
/// event, at its end, exactly when the subscriber follows the topic
/// published to.
pub proof fn publish_reaches_followers_only(
    s: Index,
    topic: Seq<char>,
    event: EventView,
    refused: Set<u64>,
    id: u64,
)
    requires
        s.consistent(),
        s.is_subscribed(id),
        !refused.contains(id),
    ensures
        s.publish(topic, event, refused).is_subscribed(id),
        s.publish(topic, event, refused).topics_by_id[id] == s.topics_by_id[id],
        s.publish(topic, event, refused).queues[id] == s.queues[id],
        s.follows(id, topic) ==> s.publish(topic, event, refused).accepted[id]
            == s.accepted[id].push(event),
        !s.follows(id, topic) ==> s.publish(topic, event, refused).accepted[id] == s.accepted[id],
{
}

/// A subscriber whose queue refuses a publication is gone afterwards: it has
/// no queue, no topic entry, and no topic lists it.
pub proof fn refused_subscriber_is_evicted(
    s: Index,
    topic: Seq<char>,
    event: EventView,
    refused: Set<u64>,
    id: u64,
)
    requires
        s.consistent(),
        refused.contains(id),
    ensures
        !s.publish(topic, event, refused).is_subscribed(id),
        !s.publish(topic, event, refused).topics_by_id.contains_key(id),
        forall|t: Seq<char>| !#[trigger] s.publish(topic, event, refused).lists(t, id),
{
}

/// A new subscriber follows exactly the topics it asked for, holds the queue
/// it came with, and has accepted nothing yet; nobody else's topics, queue
/// or record change.
pub proof fn subscribe_registers_exactly(
    s: Index,
    id: u64,
    topics: Set<Seq<char>>,
    sender: Sender<Arc<Event>>,
)
    requires
        s.consistent(),
        !s.is_subscribed(id),
    ensures
        s.subscribe(id, topics, sender).is_subscribed(id),
        s.subscribe(id, topics, sender).queues[id] == sender,
        s.subscribe(id, topics, sender).accepted[id] == Seq::<EventView>::empty(),
        forall|t: Seq<char>|
            #[trigger] s.subscribe(id, topics, sender).lists(t, id) <==> topics.contains(t),
        forall|t: Seq<char>|
            #[trigger] s.subscribe(id, topics, sender).follows(id, t) <==> topics.contains(t),
        forall|other: u64, t: Seq<char>|
            other != id ==> (#[trigger] s.subscribe(id, topics, sender).lists(t, other)
                <==> s.lists(t, other)),
        forall|other: u64|
            other != id && s.is_subscribed(other) ==> {
                &&& #[trigger] s.subscribe(id, topics, sender).is_subscribed(other)
                &&& s.subscribe(id, topics, sender).queues[other] == s.queues[other]
                &&& s.subscribe(id, topics, sender).accepted[other] == s.accepted[other]
            },
{
    let post = s.subscribe(id, topics, sender);
    assert forall|t: Seq<char>| #[trigger] post.lists(t, id) <==> topics.contains(t) by {
        assert(s.lists(t, id) <==> s.follows(id, t));
    }
}

/// Releasing a subscriber leaves every other subscriber as it was: its
/// registration, its topics, its queue and what that queue accepted.
pub proof fn unsubscribe_leaves_the_others(s: Index, id: u64, other: u64)
    requires
        s.consistent(),
        other != id,
    ensures
        s.unsubscribe(id).is_subscribed(other) == s.is_subscribed(other),
        s.is_subscribed(other) ==> {
            &&& s.unsubscribe(id).queues[other] == s.queues[other]
            &&& s.unsubscribe(id).accepted[other] == s.accepted[other]
            &&& s.unsubscribe(id).topics_by_id[other] == s.topics_by_id[other]
        },
        forall|t: Seq<char>| #[trigger] s.unsubscribe(id).lists(t, other) <==> s.lists(t, other),
{
    assert forall|t: Seq<char>| #[trigger]
        s.unsubscribe(id).lists(t, other) <==> s.lists(t, other) by {
        if s.is_subscribed(id) && s.lists(t, other) {
            assert(s.ids_by_topic[t].difference(set![id]).contains(other));
        }
    }
}

/// Registering a subscriber that was not registered and releasing it again
/// gives back the index as it was.
pub proof fn subscribe_then_unsubscribe(
    s: Index,
    id: u64,
    topics: Set<Seq<char>>,
    sender: Sender<Arc<Event>>,
)
    requires
        s.consistent(),
        !s.is_subscribed(id),
    ensures
        s.subscribe(id, topics, sender).unsubscribe(id) == s,
{
    let mid = s.subscribe(id, topics, sender);
    let post = mid.unsubscribe(id);
    assert(post.topics_by_id =~= s.topics_by_id);
    assert(post.queues =~= s.queues);
    assert(post.accepted =~= s.accepted);
    assert forall|t: Seq<char>| !s.lists(t, id) by {}
    assert forall|t: Seq<char>| s.ids_by_topic.contains_key(t) implies #[trigger]
        mid.ids_by_topic[t].difference(set![id]) =~= s.ids_by_topic[t] by {
        assert(!s.lists(t, id));
    }
    assert forall|t: Seq<char>| post.ids_by_topic.contains_key(t) <==> s.ids_by_topic.contains_key(
        t,
    ) by {}
    assert(post.ids_by_topic =~= s.ids_by_topic);
}

} // verus!
