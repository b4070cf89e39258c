//! The broker actor: the one owner of the topic index.

use crate::event::{Event, EventView};
use crate::index::{topic_set, Index};
use crate::instruction::{before_stop, carries_out, reaches, Instruction, InstructionView};
use crate::messenger::Messenger;
use crate::outbound::{offer, share};
use std::collections::{HashMap, HashSet};
use std::sync::Arc;
use tokio::sync::mpsc::Sender;
use vstd::hash_map::StringHashMap;
use vstd::prelude::*;
use vstd::std_specs::iter::IteratorSpec;

verus! {

/// Extending a sequence by one item extends the set of its items by that
/// item.
proof fn take_one_more(s: Seq<u64>, i: int)
    requires
        0 <= i < s.len(),
    ensures
        s.take(i + 1).to_set() == s.take(i).to_set().insert(s[i]),
{
    let longer = s.take(i + 1);
    let shorter = s.take(i);
    assert forall|x: u64| longer.to_set().contains(x) <==> shorter.to_set().insert(s[i]).contains(
        x,
    ) by {
        if x == s[i] {
            assert(longer[i] == x);
        }
    }
}

/// A copy of `ids`.
fn copy_of(ids: &HashSet<u64>) -> (copy: HashSet<u64>)
    ensures
        copy@ == ids@,
{
    let mut copy: HashSet<u64> = HashSet::new();
    let ghost all: Seq<u64> = ids.iter().remaining().unref();
    let ghost mut done: int = 0;
    for id in it: ids.iter()
        invariant
            it.seq().unref() == all,
            all.to_set() == ids@,
            done == it.index(),
            copy@ == all.take(done).to_set(),
    {
        proof {
            take_one_more(all, done);
            done = done + 1;
        }
        copy.insert(*id);
    }
    assert(all.take(done) =~= all);
    copy
}

/// A copy of `ids` without `id`.
fn copy_without(ids: &HashSet<u64>, id: u64) -> (rest: HashSet<u64>)
    ensures
        rest@ == ids@.remove(id),
{
    let mut rest = copy_of(ids);
    rest.remove(&id);
    rest
}

/// A copy of `ids` with `id` added.
fn copy_with(ids: &HashSet<u64>, id: u64) -> (more: HashSet<u64>)
    ensures
        more@ == ids@.insert(id),
{
    let mut more = copy_of(ids);
    more.insert(id);
    more
}

/// Naming one more topic adds that topic to the set named so far.
proof fn name_one_more(topics: Seq<String>, n: int)
    requires
        0 <= n < topics.len(),
    ensures
        topic_set(topics.take(n + 1)) == topic_set(topics.take(n)).insert(topics[n]@),
{
    let longer = topics.take(n + 1);
    let shorter = topics.take(n);
    assert forall|t: Seq<char>| topic_set(longer).contains(t) <==> topic_set(shorter).insert(
        topics[n]@,
    ).contains(t) by {
        if t == topics[n]@ {
            assert(longer[n]@ == t);
        }
    }
}

/// The subscriber sets of an index after `id` has been taken out of the
/// topics in `seen`: a topic whose set became empty has no entry left.
spec fn released(ids_by_topic: Map<Seq<char>, Set<u64>>, id: u64, seen: Set<Seq<char>>) -> Map<
    Seq<char>,
    Set<u64>,
> {
    Map::new(
        |t: Seq<char>|
            ids_by_topic.contains_key(t) && (seen.contains(t) ==> !ids_by_topic[t].remove(
                id,
            ).is_empty()),
        |t: Seq<char>|
            if seen.contains(t) {
                ids_by_topic[t].remove(id)
            } else {
                ids_by_topic[t]
            },
    )
}

/// The broker actor. It owns the topic index and is the only code that
/// changes it: callers reach it through instructions, one at a time.
///
/// The map from topics to subscribers hands out shared references only, so
/// an entry is changed by storing a changed copy of its set. The field
/// `accepted` is ghost: it records, for the contracts, which events each
/// queue has taken.
pub struct MessengerWorker {
    topics_by_id: HashMap<u64, Vec<String>>,
    sender_by_id: HashMap<u64, Sender<Arc<Event>>>,
    ids_by_topic: StringHashMap<HashSet<u64>>,
    accepted: Ghost<Map<u64, Seq<EventView>>>,
}

impl View for MessengerWorker {
    type V = Index;

    closed spec fn view(&self) -> Index {
        Index {
            topics_by_id: self.topics_by_id@.map_values(|v: Vec<String>| topic_set(v@)),
            ids_by_topic: self.ids_by_topic@.map_values(|s: HashSet<u64>| s@),
            queues: self.sender_by_id@,
            accepted: self.accepted@,
        }
    }
}

impl MessengerWorker {
    /// The worker's invariant: its index is consistent.
    pub open spec fn wf(&self) -> bool {
        self@.consistent()
    }

    /// The sending half of the queue of the registered subscriber `id`.
    fn queue_of(&self, id: u64) -> (sender: &Sender<Arc<Event>>)
        requires
            self@.queues.contains_key(id),
        ensures
            *sender == self@.queues[id],
    {
        self.sender_by_id.get(&id).unwrap()
    }

    /// A worker with an empty index.
    pub fn new() -> (worker: MessengerWorker)
        ensures
            worker.wf(),
            worker@ == Index::empty(),
    {
        let worker = MessengerWorker {
            topics_by_id: HashMap::new(),
            sender_by_id: HashMap::new(),
            ids_by_topic: StringHashMap::new(),
            accepted: Ghost(Map::empty()),
        };
        proof {
            crate::index::empty_is_consistent();
            assert(worker@.topics_by_id =~= Index::empty().topics_by_id);
            assert(worker@.ids_by_topic =~= Index::empty().ids_by_topic);
        }
        worker
    }

    /// Releases the subscriber `id`: drops its queue, takes it out of the
    /// entry of every topic it followed, and drops those entries that this
    /// leaves empty. Releasing an id that is not registered does nothing, so
    /// a second release is harmless.
    pub fn unsubscribe(&mut self, id: u64)
        requires
            old(self).wf(),
        ensures
            final(self).wf(),
            final(self)@ == old(self)@.unsubscribe(id),
    {
        let ghost before = self@;
        if self.sender_by_id.remove(&id).is_none() {
            assert(self@.queues =~= before.queues);
            return ;
        }
        self.accepted = Ghost(self.accepted@.remove(id));
        let topics = self.topics_by_id.remove(&id).unwrap();
        let mut i: usize = 0;
        while i < topics.len()
            invariant
                i <= topics.len(),
                self.topics_by_id@ == old(self).topics_by_id@.remove(id),
                self.sender_by_id@ == old(self).sender_by_id@.remove(id),
                self.accepted@ == old(self).accepted@.remove(id),
                before == old(self)@,
                self@.ids_by_topic == released(
                    before.ids_by_topic,
                    id,
                    topic_set(topics@.take(i as int)),
                ),
            decreases topics.len() - i,
        {
            let topic = &topics[i];
            proof {
                name_one_more(topics@, i as int);
            }
            let ghost prev = self@.ids_by_topic;
            match self.ids_by_topic.get(topic.as_str()) {
                Some(ids) => {
                    let rest = copy_without(ids, id);
                    assert(rest@ == before.ids_by_topic[topic@].remove(id)) by {
                        assert(prev[topic@] == ids@);
                    }
                    if rest.is_empty() {
                        self.ids_by_topic.remove(topic.as_str());
                        assert(self@.ids_by_topic =~= prev.remove(topic@));
                    } else {
                        self.ids_by_topic.insert(topic.clone(), rest);
                        assert(self@.ids_by_topic =~= prev.insert(topic@, rest@));
                        assert(prev.contains_key(topic@));
                    }
                },
                None => {},
            }
            i += 1;
        }
        proof {
            assert(topics@.take(topics.len() as int) =~= topics@);
            let after = before.evict(set![id]);
            assert(self@.topics_by_id =~= after.topics_by_id);
            assert(self@.queues =~= after.queues);
            assert(self@.accepted =~= after.accepted);
            assert forall|t: Seq<char>| before.ids_by_topic.contains_key(t) implies (
            if topic_set(topics@).contains(t) {
                before.ids_by_topic[t].remove(id)
            } else {
                before.ids_by_topic[t]
            }) == #[trigger] before.ids_by_topic[t].difference(set![id]) by {
                assert(before.lists(t, id) <==> before.follows(id, t));
            }
            assert(self@.ids_by_topic =~= after.ids_by_topic);
            crate::index::unsubscribe_keeps_consistent(before, id);
        }
    }

    /// Registers the subscriber `id` for `topics`, with `sender` as the
    /// sending half of its queue. Each topic gets an entry when its first
    /// subscriber arrives. An id that is still registered is released
    /// first, so the index never holds two registrations under one id.
    pub fn subscribe(&mut self, id: u64, sender: Sender<Arc<Event>>, topics: Vec<String>)
        requires
            old(self).wf(),
        ensures
            final(self).wf(),
            final(self)@ == old(self)@.unsubscribe(id).subscribe(id, topic_set(topics@), sender),
    {
        self.unsubscribe(id);
        let ghost before = self@;
        let ghost released = *self;
        let ghost handle = sender;
        proof {
            crate::index::unsubscribe_keeps_consistent(old(self)@, id);
        }
        let mut i: usize = 0;
        while i < topics.len()
            invariant
                i <= topics.len(),
                self.topics_by_id@ == released.topics_by_id@,
                self.sender_by_id@ == released.sender_by_id@,
                self.accepted@ == released.accepted@,
                before == released@,
                self@.ids_by_topic == before.subscribe(
                    id,
                    topic_set(topics@.take(i as int)),
                    handle,
                ).ids_by_topic,
            decreases topics.len() - i,
        {
            let topic = &topics[i];
            let ghost prev = self@.ids_by_topic;
            proof {
                name_one_more(topics@, i as int);
            }
            let more = match self.ids_by_topic.get(topic.as_str()) {
                Some(ids) => {
                    let more = copy_with(ids, id);
                    assert(more@ =~= before.subscribers(topic@).insert(id)) by {
                        assert(prev.contains_key(topic@));
                        assert(prev[topic@] == ids@);
                    }
                    more
                },
                None => {
                    let mut first: HashSet<u64> = HashSet::new();
                    first.insert(id);
                    assert(first@ =~= before.subscribers(topic@).insert(id)) by {
                        assert(!prev.contains_key(topic@));
                    }
                    first
                },
            };
            self.ids_by_topic.insert(topic.clone(), more);
            assert(self@.ids_by_topic =~= prev.insert(topic@, more@));
            i += 1;
        }
        self.topics_by_id.insert(id, topics);
        self.sender_by_id.insert(id, sender);
        self.accepted = Ghost(self.accepted@.insert(id, Seq::empty()));
        proof {
            assert(topics@.take(topics.len() as int) =~= topics@);
            let after = before.subscribe(id, topic_set(topics@), handle);
            assert(self@.topics_by_id =~= after.topics_by_id);
            crate::index::subscribe_keeps_consistent(before, id, topic_set(topics@), handle);
        }
    }

    /// Publishes `event` to `topic`. Every subscriber of the topic is
    /// offered the event once, without waiting. A subscriber whose queue
    /// refuses it, because it is full or because its reader is gone, is
    /// evicted once all of them have been offered the event. The result
    /// names the evicted subscribers. A topic that nobody follows has no
    /// subscribers: nothing happens.
    pub fn deliver(&mut self, topic: String, event: Event) -> (evicted: Vec<u64>)
        requires
            old(self).wf(),
        ensures
            final(self).wf(),
            evicted@.no_duplicates(),
            evicted@.to_set().subset_of(old(self)@.subscribers(topic@)),
            final(self)@ == old(self)@.publish(topic@, event@, evicted@.to_set()),
            old(self)@.subscribers(topic@).is_empty() ==> evicted@.len() == 0 && final(self)@
                == old(self)@,
            forall|id: u64| evicted@.contains(id) ==> !final(self)@.is_subscribed(id),
    {
        let ghost before = self@;
        let ghost published = event@;
        let shared = Arc::new(event);
        let mut failures: Vec<u64> = Vec::new();
        assert(failures@.to_set() =~= Set::<u64>::empty());
        assert(before.accept(Set::empty(), published).accepted =~= before.accepted);
        if let Some(receivers) = self.ids_by_topic.get(topic.as_str()) {
            let ghost all: Seq<u64> = receivers.iter().remaining().unref();
            let ghost mut done: int = 0;
            assert(all.take(0).to_set() =~= Set::<u64>::empty());
            assert(Set::<u64>::empty().difference(Set::<u64>::empty()) =~= Set::<u64>::empty());
            for id in it: receivers.iter()
                invariant
                    it.seq().unref() == all,
                    all.to_set() == receivers@,
                    all.no_duplicates(),
                    done == it.index(),
                    receivers@ == before.subscribers(topic@),
                    before.ids_by_topic.contains_key(topic@),
                    before == old(self)@,
                    old(self).wf(),
                    self.topics_by_id@ == old(self).topics_by_id@,
                    self.sender_by_id@ == old(self).sender_by_id@,
                    self.ids_by_topic@ == old(self).ids_by_topic@,
                    failures@.no_duplicates(),
                    failures@.to_set().subset_of(all.take(done).to_set()),
                    self.accepted@ == before.accept(
                        all.take(done).to_set().difference(failures@.to_set()),
                        published,
                    ).accepted,
            {
                let ghost offered = all.take(done).to_set();
                let ghost refused = failures@.to_set();
                proof {
                    take_one_more(all, done);
                    assert(before.lists(topic@, *id) <==> before.follows(*id, topic@));
                }
                let sender = self.queue_of(*id);
                if offer(sender, share(&shared)) {
                    self.accepted = Ghost(
                        self.accepted@.insert(*id, self.accepted@[*id].push(published)),
                    );
                    assert(self.accepted@ =~= before.accept(
                        offered.insert(*id).difference(refused),
                        published,
                    ).accepted);
                } else {
                    let ghost earlier = failures@;
                    failures.push(*id);
                    assert(failures@.to_set() =~= refused.insert(*id)) by {
                        take_one_more(failures@, failures@.len() - 1);
                        assert(failures@.take(failures@.len() - 1) =~= earlier);
                    }
                    assert(offered.insert(*id).difference(refused.insert(*id)) =~= offered.difference(
                        refused,
                    ));
                }
                proof {
                    done = done + 1;
                }
            }
            assert(all.take(done) =~= all);
        } else {
            assert(before.subscribers(topic@).difference(failures@.to_set())
                =~= Set::<u64>::empty());
        }
        let ghost taken = before.accept(
            before.subscribers(topic@).difference(failures@.to_set()),
            published,
        );
        proof {
            crate::index::accept_keeps_consistent(
                before,
                before.subscribers(topic@).difference(failures@.to_set()),
                published,
            );
            crate::index::evict_nobody(taken);
            assert(failures@.take(0).to_set() =~= Set::<u64>::empty());
        }
        let mut k: usize = 0;
        while k < failures.len()
            invariant
                k <= failures.len(),
                self.wf(),
                taken.consistent(),
                self@ == taken.evict(failures@.take(k as int).to_set()),
            decreases failures.len() - k,
        {
            proof {
                take_one_more(failures@, k as int);
                crate::index::evict_one_more(taken, failures@.take(k as int).to_set(), failures@[k as int]);
            }
            self.unsubscribe(failures[k]);
            k += 1;
        }
        proof {
            assert(failures@.take(failures.len() as int) =~= failures@);
            let refused = failures@.to_set();
            if before.subscribers(topic@).is_empty() {
                crate::index::publish_without_subscribers(before, topic@, published, refused);
            }
        }
        failures
    }

    /// Carries out one instruction and says whether the actor goes on:
    /// `Stop` alone ends it, and changes nothing.
    pub fn step(&mut self, instruction: Instruction) -> (running: bool)
        requires
            old(self).wf(),
        ensures
            final(self).wf(),
            running == !(instruction@ is Stop),
            carries_out(old(self)@, instruction@, final(self)@),
    {
        let ghost asked = instruction@;
        match instruction {
            Instruction::Message(topic, evt) => {
                let ghost published = evt@;
                let ghost name = topic@;
                let evicted = self.deliver(topic, evt);
                assert(carries_out(old(self)@, asked, self@)) by {
                    assert(asked->topic == name);
                    assert(asked->event == published);
                    assert(self@ == old(self)@.publish(name, published, evicted@.to_set()));
                }
                true
            },
            Instruction::Subscribe(id, sender, topics) => {
                self.subscribe(id, sender, topics);
                true
            },
            Instruction::Unsubscribe(id) => {
                self.unsubscribe(id);
                true
            },
            Instruction::Stop => false,
        }
    }

    /// Carries out the instructions that wait in the messenger's channel,
    /// oldest first, until it meets `Stop` or the channel is empty, and says
    /// whether it met `Stop`. What stands behind a `Stop` stays in the
    /// channel and is not carried out.
    pub fn run(&mut self, messenger: &mut Messenger) -> (stopped: bool)
        requires
            old(self).wf(),
        ensures
            final(self).wf(),
            final(messenger).next_id() == old(messenger).next_id(),
            stopped == (before_stop(old(messenger).pending()) < old(messenger).pending().len()),
            reaches(
                old(self)@,
                old(messenger).pending().take(before_stop(old(messenger).pending()) as int),
                final(self)@,
            ),
            final(messenger).pending() == old(messenger).pending().skip(
                before_stop(old(messenger).pending()) + if stopped {
                    1int
                } else {
                    0int
                },
            ),
    {
        let ghost given = messenger.pending();
        let ghost mut done: int = 0;
        loop
            invariant
                self.wf(),
                messenger.next_id() == old(messenger).next_id(),
                given == old(messenger).pending(),
                0 <= done <= given.len(),
                messenger.pending() == given.skip(done),
                before_stop(given) == done + before_stop(given.skip(done)),
                reaches(old(self)@, given.take(done), self@),
            decreases given.len() - done,
        {
            match messenger.recv() {
                None => {
                    return false;
                },
                Some(instruction) => {
                    if !self.step(instruction) {
                        return true;
                    }
                    proof {
                        assert(given.take(done + 1).drop_last() =~= given.take(done));
                        assert(given.take(done + 1).last() == given[done]);
                        done = done + 1;
                    }
                },
            }
        }
    }

    /// Whether the subscriber `id` is registered.
    pub fn is_subscribed(&self, id: u64) -> (registered: bool)
        ensures
            registered == self@.is_subscribed(id),
    {
        self.sender_by_id.contains_key(&id)
    }

    /// The registered subscribers, each once, in no particular order.
    pub fn subscribers(&self) -> (ids: Vec<u64>)
        ensures
            ids@.no_duplicates(),
            ids@.to_set() == self@.queues.dom(),
    {
        let mut ids: Vec<u64> = Vec::new();
        let ghost all: Seq<u64> = self.sender_by_id.keys().remaining().unref();
        for id in it: self.sender_by_id.keys()
            invariant
                it.seq().unref() == all,
                ids@ == all.take(it.index()),
                it.index() == it.seq().len() ==> ids@ == all,
        {
            ids.push(*id);
        }
        ids
    }

    /// The sending half of the queue of the subscriber `id`; `None` where
    /// `id` is not registered.
    pub fn queue(&self, id: u64) -> (sender: Option<&Sender<Arc<Event>>>)
        ensures
            match sender {
                Some(sender) => self@.queues.contains_key(id) && *sender == self@.queues[id],
                None => !self@.queues.contains_key(id),
            },
    {
        self.sender_by_id.get(&id)
    }

    /// The topic names that the subscriber `id` registered with; `None`
    /// where `id` has no topic entry.
    pub fn topics_of(&self, id: u64) -> (topics: Option<&Vec<String>>)
        ensures
            match topics {
                Some(names) => self@.topics_by_id.contains_key(id) && topic_set(names@)
                    == self@.topics_by_id[id],
                None => !self@.topics_by_id.contains_key(id),
            },
    {
        self.topics_by_id.get(&id)
    }

    /// The subscribers that the entry of `topic` lists, each once, in no
    /// particular order; none where the topic has no entry.
    pub fn subscribers_of(&self, topic: &str) -> (ids: Vec<u64>)
        ensures
            ids@.no_duplicates(),
            ids@.to_set() == self@.subscribers(topic@),
    {
        let mut ids: Vec<u64> = Vec::new();
        match self.ids_by_topic.get(topic) {
            Some(listed) => {
                let ghost all: Seq<u64> = listed.iter().remaining().unref();
                for id in it: listed.iter()
                    invariant
                        it.seq().unref() == all,
                        ids@ == all.take(it.index()),
                        it.index() == it.seq().len() ==> ids@ == all,
                {
                    ids.push(*id);
                }
            },
            None => {},
        }
        ids
    }

    /// Whether `topic` has an entry, that is, whether anybody follows it.
    pub fn has_topic(&self, topic: &str) -> (present: bool)
        ensures
            present == self@.ids_by_topic.contains_key(topic@),
    {
        self.ids_by_topic.contains_key(topic)
    }

    /// Whether the entry of `topic` lists the subscriber `id`.
    pub fn lists(&self, topic: &str, id: u64) -> (listed: bool)
        ensures
            listed == self@.lists(topic@, id),
    {
        match self.ids_by_topic.get(topic) {
            Some(ids) => ids.contains(&id),
            None => false,
        }
    }

    /// Whether the entry of the subscriber `id` names `topic`.
    pub fn follows(&self, id: u64, topic: &str) -> (named: bool)
        ensures
            named == self@.follows(id, topic@),
    {
        match self.topics_by_id.get(&id) {
            Some(topics) => {
                let wanted = topic.to_owned();
                let mut i: usize = 0;
                while i < topics.len()
                    invariant
                        i <= topics.len(),
                        wanted@ == topic@,
                        self@.follows(id, topic@) == topic_set(topics@).contains(topic@),
                        !topic_set(topics@.take(i as int)).contains(topic@),
                    decreases topics.len() - i,
                {
                    if topics[i] == wanted {
                        return true;
                    }
                    proof {
                        name_one_more(topics@, i as int);
                    }
                    i += 1;
                }
                assert(topics@.take(topics.len() as int) =~= topics@);
                false
            },
            None => false,
        }
    }
}

} // verus!
