use messenger::config::{AppConfig, SecretError, KEY_LENGTH, SIGNATURE_LIFETIME};
use messenger::outbound::OUTBOUND_CAPACITY;
use messenger::request::{react, submit, subscribe, Message, Reaction, SubscribeRequest, Submission, Wakeup};
use messenger::{Event, Instruction, Messenger, MessengerWorker};
use std::sync::Arc;
use tokio::sync::mpsc::error::TryRecvError;

fn topics(names: &[&str]) -> Vec<String> {
    names.iter().map(|name| name.to_string()).collect()
}

#[test]
fn new_messenger_has_nothing_pending() {
    let mut messenger = Messenger::new();
    assert!(messenger.recv().is_none());
}

#[test]
fn ids_are_handed_out_in_order_from_zero() {
    let mut messenger = Messenger::new();
    let first = messenger.subscribe(topics(&["a"]));
    let second = messenger.subscribe(topics(&["b"]));
    let third = messenger.subscribe(topics(&[]));
    assert_eq!(first.id(), 0);
    assert_eq!(second.id(), 1);
    assert_eq!(third.id(), 2);
}

#[test]
fn instructions_leave_the_channel_in_the_order_they_entered() {
    let mut messenger = Messenger::new();
    let receiver = messenger.subscribe(topics(&["a", "b"]));
    messenger.send("a".to_string(), Event::new("e".to_string(), "1".to_string()));
    messenger.unsubscribe(receiver);
    messenger.stop();
    match messenger.recv() {
        Some(Instruction::Subscribe(id, _, names)) => {
            assert_eq!(id, 0);
            assert_eq!(names, topics(&["a", "b"]));
        },
        other => panic!("{:?}", other),
    }
    match messenger.recv() {
        Some(Instruction::Message(topic, evt)) => {
            assert_eq!(topic, "a");
            assert_eq!(evt.event, "e");
            assert_eq!(evt.data, "1");
        },
        other => panic!("{:?}", other),
    }
    assert!(matches!(messenger.recv(), Some(Instruction::Unsubscribe(0))));
    assert!(matches!(messenger.recv(), Some(Instruction::Stop)));
    assert!(messenger.recv().is_none());
}

#[test]
fn subscription_carries_the_sending_half_of_the_handle_s_queue() {
    let mut messenger = Messenger::new();
    let mut receiver = messenger.subscribe(topics(&["a"]));
    match messenger.recv() {
        Some(Instruction::Subscribe(_, sender, _)) => {
            let evt = Arc::new(Event::new("e".to_string(), "x".to_string()));
            assert!(sender.try_send(evt).is_ok());
        },
        other => panic!("{:?}", other),
    }
    assert_eq!(receiver.subscription.try_recv().unwrap().data, "x");
    assert_eq!(receiver.subscription.try_recv().unwrap_err(), TryRecvError::Disconnected);
}

#[test]
fn subscription_queue_holds_sixteen_events() {
    let mut messenger = Messenger::new();
    let mut receiver = messenger.subscribe(topics(&["a"]));
    assert_eq!(receiver.subscription.max_capacity(), OUTBOUND_CAPACITY);
    let sender = match messenger.recv() {
        Some(Instruction::Subscribe(_, sender, _)) => sender,
        other => panic!("{:?}", other),
    };
    assert_eq!(sender.max_capacity(), 16);
    for n in 0..16 {
        let evt = Arc::new(Event::new("e".to_string(), n.to_string()));
        assert!(sender.try_send(evt).is_ok());
    }
    let evt = Arc::new(Event::new("e".to_string(), "one too many".to_string()));
    assert!(sender.try_send(evt).is_err());
    assert_eq!(receiver.subscription.try_recv().unwrap().data, "0");
}

#[test]
fn submit_publishes_the_batch_in_order() {
    let mut messenger = Messenger::new();
    let mut worker = MessengerWorker::new();
    let mut receiver = subscribe(&mut messenger, SubscribeRequest { topics: topics(&["a", "b"]) });
    let batch = Submission {
        events: vec![
            Message { topic: "a".to_string(), event: "e1".to_string(), data: "1".to_string() },
            Message { topic: "z".to_string(), event: "e2".to_string(), data: "2".to_string() },
            Message { topic: "b".to_string(), event: "e3".to_string(), data: "3".to_string() },
        ],
    };
    submit(&mut messenger, batch);
    assert!(!worker.run(&mut messenger));
    let first = receiver.subscription.try_recv().unwrap();
    assert_eq!((first.event.as_str(), first.data.as_str()), ("e1", "1"));
    let second = receiver.subscription.try_recv().unwrap();
    assert_eq!((second.event.as_str(), second.data.as_str()), ("e3", "3"));
    assert_eq!(receiver.subscription.try_recv().unwrap_err(), TryRecvError::Empty);
}

#[test]
fn empty_batch_publishes_nothing() {
    let mut messenger = Messenger::new();
    submit(&mut messenger, Submission { events: vec![] });
    assert!(messenger.recv().is_none());
}

#[test]
fn consumer_loop_forwards_events_and_ends_on_closure_or_cancellation() {
    let evt = Arc::new(Event::new("msg".to_string(), "hi".to_string()));
    match react(Wakeup::Next(Some(evt))) {
        Reaction::Forward { event, data } => {
            assert_eq!(event, "msg");
            assert_eq!(data, "hi");
        },
        Reaction::Finish => panic!("an event ends nothing"),
    }
    assert!(matches!(react(Wakeup::Next(None)), Reaction::Finish));
    assert!(matches!(react(Wakeup::Cancelled), Reaction::Finish));
}

#[test]
fn secret_of_thirty_two_bytes_is_accepted() {
    let secret = "000102030405060708090a0B0c0D0e0F10111213141516171819fAFbfCFdfEFf";
    let config = AppConfig::new(secret).unwrap();
    let mut expected: Vec<u8> = (0u8..26).collect();
    expected.extend_from_slice(&[0xfa, 0xfb, 0xfc, 0xfd, 0xfe, 0xff]);
    assert_eq!(config.key, expected);
    assert_eq!(config.key.len(), KEY_LENGTH);
    assert_eq!(config.signature_lifetime, 86400);
    assert_eq!(SIGNATURE_LIFETIME, 86400);
    assert_eq!(KEY_LENGTH, 32);
}

#[test]
fn secret_that_is_not_hexadecimal_is_refused() {
    let odd = "0".repeat(63);
    assert_eq!(AppConfig::new(&odd).unwrap_err(), SecretError::NotHex);
    let letter = format!("{}g0", "0".repeat(62));
    assert_eq!(AppConfig::new(&letter).unwrap_err(), SecretError::NotHex);
    let wide = format!("{}\u{e9}", "0".repeat(62));
    assert_eq!(AppConfig::new(&wide).unwrap_err(), SecretError::NotHex);
    assert_eq!(AppConfig::new("0").unwrap_err(), SecretError::NotHex);
}

#[test]
fn secret_of_another_length_is_refused() {
    assert_eq!(AppConfig::new("").unwrap_err(), SecretError::WrongLength);
    assert_eq!(AppConfig::new(&"ab".repeat(31)).unwrap_err(), SecretError::WrongLength);
    assert_eq!(AppConfig::new(&"ab".repeat(33)).unwrap_err(), SecretError::WrongLength);
}
