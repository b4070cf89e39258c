use messenger::outbound::OUTBOUND_CAPACITY;
use messenger::{Event, Messenger, MessengerWorker};
use std::sync::Arc;
use tokio::sync::mpsc::error::TryRecvError;
use tokio::sync::mpsc::{channel, Receiver, Sender};

fn topics(names: &[&str]) -> Vec<String> {
    names.iter().map(|name| name.to_string()).collect()
}

fn event(name: &str, data: &str) -> Event {
    Event::new(name.to_string(), data.to_string())
}

fn queue() -> (Sender<Arc<Event>>, Receiver<Arc<Event>>) {
    channel(OUTBOUND_CAPACITY)
}

#[test]
fn subscriber_receives_the_event_published_to_its_topic() {
    let mut worker = MessengerWorker::new();
    let (tx, mut rx) = queue();
    worker.subscribe(1, tx, topics(&["chat"]));
    let evicted = worker.deliver("chat".to_string(), event("msg", "hi"));
    assert!(evicted.is_empty());
    let got = rx.try_recv().expect("one event");
    assert_eq!(got.event, "msg");
    assert_eq!(got.data, "hi");
    assert_eq!(rx.try_recv().unwrap_err(), TryRecvError::Empty);
}

#[test]
fn event_for_another_topic_is_not_delivered() {
    let mut worker = MessengerWorker::new();
    let (tx, mut rx) = queue();
    worker.subscribe(1, tx, topics(&["chat"]));
    let evicted = worker.deliver("other".to_string(), event("x", "y"));
    assert!(evicted.is_empty());
    assert_eq!(rx.try_recv().unwrap_err(), TryRecvError::Empty);
    assert!(worker.is_subscribed(1));
    assert!(!worker.has_topic("other"));
}

#[test]
fn released_subscriber_gets_nothing_more() {
    let mut worker = MessengerWorker::new();
    let (tx1, mut rx1) = queue();
    let (tx2, mut rx2) = queue();
    worker.subscribe(1, tx1, topics(&["chat"]));
    worker.subscribe(2, tx2, topics(&["chat"]));
    worker.unsubscribe(1);
    let evicted = worker.deliver("chat".to_string(), event("e", "payload"));
    assert!(evicted.is_empty());
    assert_eq!(rx1.try_recv().unwrap_err(), TryRecvError::Disconnected);
    let got = rx2.try_recv().expect("subscriber 2 gets the event");
    assert_eq!(got.event, "e");
    assert_eq!(got.data, "payload");
    assert_eq!(rx2.try_recv().unwrap_err(), TryRecvError::Empty);
}

#[test]
fn subscriber_that_never_reads_is_evicted_when_its_queue_is_full() {
    let mut worker = MessengerWorker::new();
    let (tx, mut rx) = queue();
    worker.subscribe(1, tx, topics(&["chat"]));
    for n in 0..OUTBOUND_CAPACITY {
        let evicted = worker.deliver("chat".to_string(), event("msg", &n.to_string()));
        assert!(evicted.is_empty());
    }
    assert!(worker.is_subscribed(1));
    let evicted = worker.deliver("chat".to_string(), event("msg", "one too many"));
    assert_eq!(evicted, vec![1]);
    assert!(!worker.is_subscribed(1));
    assert!(!worker.lists("chat", 1));
    assert!(!worker.has_topic("chat"));
    for n in 0..OUTBOUND_CAPACITY {
        let got = rx.try_recv().expect("an event from before the queue was full");
        assert_eq!(got.event, "msg");
        assert_eq!(got.data, n.to_string());
    }
    assert_eq!(rx.try_recv().unwrap_err(), TryRecvError::Disconnected);
    let evicted = worker.deliver("chat".to_string(), event("msg", "later"));
    assert!(evicted.is_empty());
}

#[test]
fn queue_capacity_is_sixteen() {
    assert_eq!(OUTBOUND_CAPACITY, 16);
}

#[test]
fn subscriber_whose_reader_is_gone_is_evicted() {
    let mut worker = MessengerWorker::new();
    let (tx1, rx1) = queue();
    let (tx2, mut rx2) = queue();
    worker.subscribe(1, tx1, topics(&["chat", "news"]));
    worker.subscribe(2, tx2, topics(&["chat"]));
    drop(rx1);
    let evicted = worker.deliver("chat".to_string(), event("msg", "hi"));
    assert_eq!(evicted, vec![1]);
    assert!(!worker.is_subscribed(1));
    assert!(!worker.has_topic("news"));
    assert!(worker.has_topic("chat"));
    assert!(worker.lists("chat", 2));
    assert_eq!(rx2.try_recv().expect("the healthy subscriber is served").data, "hi");
}

#[test]
fn slow_subscriber_does_not_hold_up_the_others() {
    let mut worker = MessengerWorker::new();
    let (slow_tx, mut slow_rx) = channel(1);
    let (tx, mut rx) = queue();
    worker.subscribe(1, slow_tx, topics(&["chat"]));
    worker.subscribe(2, tx, topics(&["chat"]));
    assert!(worker.deliver("chat".to_string(), event("msg", "first")).is_empty());
    assert_eq!(worker.deliver("chat".to_string(), event("msg", "second")), vec![1]);
    assert!(worker.deliver("chat".to_string(), event("msg", "third")).is_empty());
    assert_eq!(slow_rx.try_recv().expect("delivered before the queue was full").data, "first");
    assert_eq!(slow_rx.try_recv().unwrap_err(), TryRecvError::Disconnected);
    assert_eq!(rx.try_recv().unwrap().data, "first");
    assert_eq!(rx.try_recv().unwrap().data, "second");
    assert_eq!(rx.try_recv().unwrap().data, "third");
    assert_eq!(rx.try_recv().unwrap_err(), TryRecvError::Empty);
}

#[test]
fn one_event_is_shared_by_all_subscribers() {
    let mut worker = MessengerWorker::new();
    let (tx1, mut rx1) = queue();
    let (tx2, mut rx2) = queue();
    worker.subscribe(1, tx1, topics(&["chat"]));
    worker.subscribe(2, tx2, topics(&["chat"]));
    assert!(worker.deliver("chat".to_string(), event("msg", "hi")).is_empty());
    let first = rx1.try_recv().unwrap();
    let second = rx2.try_recv().unwrap();
    assert!(Arc::ptr_eq(&first, &second));
    assert_eq!(first.event, "msg");
    assert_eq!(first.data, "hi");
}

#[test]
fn subscriber_of_two_topics_gets_both_in_publish_order_and_nothing_else() {
    let mut worker = MessengerWorker::new();
    let (tx, mut rx) = queue();
    worker.subscribe(7, tx, topics(&["a", "b"]));
    assert!(worker.deliver("a".to_string(), event("e", "1")).is_empty());
    assert!(worker.deliver("c".to_string(), event("e", "2")).is_empty());
    assert!(worker.deliver("b".to_string(), event("e", "3")).is_empty());
    assert!(worker.deliver("a".to_string(), event("e", "4")).is_empty());
    assert_eq!(rx.try_recv().unwrap().data, "1");
    assert_eq!(rx.try_recv().unwrap().data, "3");
    assert_eq!(rx.try_recv().unwrap().data, "4");
    assert_eq!(rx.try_recv().unwrap_err(), TryRecvError::Empty);
}

#[test]
fn messenger_and_worker_together() {
    let mut messenger = Messenger::new();
    let mut worker = MessengerWorker::new();
    let mut receiver = messenger.subscribe(topics(&["chat"]));
    assert_eq!(receiver.id(), 0);
    messenger.send("chat".to_string(), event("msg", "hi"));
    assert_eq!(receiver.subscription.try_recv().unwrap_err(), TryRecvError::Empty);
    assert!(!worker.run(&mut messenger));
    let got = receiver.subscription.try_recv().expect("one event");
    assert_eq!(got.event, "msg");
    assert_eq!(got.data, "hi");
    assert_eq!(receiver.subscription.try_recv().unwrap_err(), TryRecvError::Empty);
    messenger.unsubscribe(receiver);
    assert!(!worker.run(&mut messenger));
    assert!(!worker.is_subscribed(0));
    assert!(!worker.has_topic("chat"));
}

#[test]
fn publish_before_the_subscription_is_carried_out_is_missed() {
    let mut messenger = Messenger::new();
    let mut worker = MessengerWorker::new();
    messenger.send("chat".to_string(), event("msg", "early"));
    let mut receiver = messenger.subscribe(topics(&["chat"]));
    messenger.send("chat".to_string(), event("msg", "late"));
    assert!(!worker.run(&mut messenger));
    assert_eq!(receiver.subscription.try_recv().unwrap().data, "late");
    assert_eq!(receiver.subscription.try_recv().unwrap_err(), TryRecvError::Empty);
}

#[test]
fn stop_ends_the_run_and_leaves_the_rest_in_the_channel() {
    let mut messenger = Messenger::new();
    let mut worker = MessengerWorker::new();
    let mut receiver = messenger.subscribe(topics(&["chat"]));
    messenger.send("chat".to_string(), event("msg", "before"));
    messenger.stop();
    messenger.send("chat".to_string(), event("msg", "after"));
    assert!(worker.run(&mut messenger));
    assert_eq!(receiver.subscription.try_recv().unwrap().data, "before");
    assert_eq!(receiver.subscription.try_recv().unwrap_err(), TryRecvError::Empty);
    let left = messenger.recv().expect("the publication behind the stop");
    assert!(matches!(left, messenger::Instruction::Message(ref topic, ref evt)
        if topic == "chat" && evt.data == "after"));
    assert!(messenger.recv().is_none());
}
