use pouchdb::document::{Revision, SerializedDocument};
use pouchdb::error::{DecodingFailure, Error};
use pouchdb::events::changes_event_emitter::{ChangeEvent, ChangesEventEmitter, Delivery};
use pouchdb::events::replication_event_emitter::{
    Delivery as ReplicationDelivery, ReplicationEventEmitter,
};
use pouchdb::events::{EventEmitter, EventName, SequenceID, Subscription};
use pouchdb::value::RawValue;

fn object(members: Vec<(&str, RawValue)>) -> RawValue {
    RawValue::Object(members.into_iter().map(|(key, value)| (key.to_string(), value)).collect())
}

fn change(id: &str, rev: &str, seq: i64) -> RawValue {
    object(vec![
        ("id", RawValue::text(id)),
        ("changes", RawValue::Array(vec![object(vec![("rev", RawValue::text(rev))])])),
        ("seq", RawValue::integer(seq)),
    ])
}

#[test]
fn listeners_fire_in_the_order_they_were_registered() {
    let mut emitter = EventEmitter::new();
    let name = EventName::string("change");
    emitter.add_listener(&name, 3);
    emitter.add_listener(&EventName::string("other"), 9);
    emitter.add_listener(&name, 1);
    emitter.add_listener(&name, 2);
    assert_eq!(emitter.emit(&name), (vec![3, 1, 2], true));
    assert_eq!(emitter.emit(&EventName::string("other")), (vec![9], true));
}

#[test]
fn event_without_listeners_is_not_handled() {
    let mut emitter = EventEmitter::new();
    assert_eq!(emitter.emit(&EventName::string("change")), (vec![], false));
    emitter.add_listener(&EventName::string("change"), 1);
    assert_eq!(emitter.emit(&EventName::string("complete")), (vec![], false));
    assert_eq!(emitter.emit(&EventName::symbol(1)), (vec![], false));
}

#[test]
fn same_listener_registered_twice_fires_twice() {
    let mut emitter = EventEmitter::new();
    let name = EventName::string("change");
    emitter.add_listener(&name, 5);
    emitter.add_listener(&name, 5);
    assert_eq!(emitter.emit(&name), (vec![5, 5], true));
}

#[test]
fn releasing_a_handle_removes_that_registration_only() {
    let mut emitter = EventEmitter::new();
    let name = EventName::string("change");
    let first = emitter.add_listener(&name, 1);
    let second = emitter.add_listener(&name, 2);
    let third = emitter.add_listener(&name, 3);
    assert_eq!(second.listener(), 2);
    assert_eq!(second.event_name(), &name);
    emitter.remove_listener(second);
    assert_eq!(emitter.emit(&name), (vec![1, 3], true));
    emitter.remove_listener(first);
    assert_eq!(emitter.emit(&name), (vec![3], true));
    emitter.remove_listener(third);
    assert_eq!(emitter.emit(&name), (vec![], false));
}

#[test]
fn releasing_one_of_two_equal_registrations_leaves_one() {
    let mut emitter = EventEmitter::new();
    let name = EventName::string("change");
    let first = emitter.add_listener(&name, 7);
    emitter.add_listener(&name, 8);
    emitter.add_listener(&name, 7);
    emitter.remove_listener(first);
    assert_eq!(emitter.emit(&name), (vec![7, 8], true));
}

#[test]
fn releasing_leaves_other_events_alone() {
    let mut emitter = EventEmitter::new();
    let change = EventName::string("change");
    let error = EventName::string("error");
    emitter.add_listener(&error, 1);
    let handle = emitter.add_listener(&change, 1);
    emitter.remove_listener(handle);
    assert_eq!(emitter.emit(&error), (vec![1], true));
    assert_eq!(emitter.emit(&change), (vec![], false));
}

#[test]
fn releasing_a_handle_whose_registration_is_gone_changes_nothing() {
    let mut emitter = EventEmitter::new();
    let name = EventName::string("change");
    let handle = emitter.add_listener(&name, 1);
    emitter.remove_all_listeners(None);
    emitter.add_listener(&name, 2);
    emitter.remove_listener(handle);
    assert_eq!(emitter.emit(&name), (vec![2], true));
}

#[test]
fn event_names_lists_each_event_once() {
    let mut emitter = EventEmitter::new();
    assert_eq!(emitter.event_names(), vec![]);
    emitter.add_listener(&EventName::string("b"), 1);
    emitter.add_listener(&EventName::symbol(4), 2);
    emitter.add_listener(&EventName::string("a"), 3);
    emitter.add_listener(&EventName::string("b"), 4);
    assert_eq!(
        emitter.event_names(),
        vec![EventName::string("b"), EventName::symbol(4), EventName::string("a")]
    );
}

#[test]
fn remove_all_listeners_of_one_event_keeps_the_others() {
    let mut emitter = EventEmitter::new();
    let a = EventName::string("a");
    let b = EventName::string("b");
    emitter.add_listener(&a, 1);
    emitter.add_listener(&b, 2);
    emitter.add_listener(&a, 3);
    emitter.add_listener(&b, 4);
    emitter.remove_all_listeners(Some(&a));
    assert_eq!(emitter.emit(&a), (vec![], false));
    assert_eq!(emitter.emit(&b), (vec![2, 4], true));
    assert_eq!(emitter.event_names(), vec![EventName::string("b")]);
    emitter.remove_all_listeners(None);
    assert_eq!(emitter.emit(&b), (vec![], false));
    assert_eq!(emitter.event_names(), vec![]);
}

#[test]
fn event_names_are_the_same_by_kind_and_value() {
    assert!(EventName::string("a").same(&EventName::string("a")));
    assert!(!EventName::string("a").same(&EventName::string("b")));
    assert!(EventName::symbol(1).same(&EventName::symbol(1)));
    assert!(!EventName::symbol(1).same(&EventName::symbol(2)));
    assert!(!EventName::symbol(1).same(&EventName::string("1")));
    assert_eq!(EventName::string("a").clone(), EventName::String("a".to_string()));
    assert_eq!(EventName::symbol(3), EventName::Symbol(3));
}

#[test]
fn change_event_is_read_from_its_record() {
    let event = ChangeEvent::new(&change("x", "1-a", 5)).unwrap();
    assert_eq!(event.id, "x");
    assert_eq!(event.changes, vec![Revision(RawValue::text("1-a"))]);
    assert_eq!(event.seq, SequenceID(RawValue::integer(5)));
    assert!(!event.deleted);
    assert_eq!(event.doc, None);
}

#[test]
fn change_event_carries_its_document() {
    let doc = object(vec![("_id", RawValue::text("x")), ("n", RawValue::integer(1))]);
    let mut record = change("x", "1-a", 5);
    record.set("doc", doc.clone());
    let event = ChangeEvent::new(&record).unwrap();
    assert_eq!(event.doc, Some(SerializedDocument::try_from(doc).unwrap()));
    assert!(!event.deleted);
}

#[test]
fn deletion_never_carries_a_document() {
    let mut record = change("x", "2-b", 6);
    record.set("deleted", RawValue::Bool(true));
    record.set("doc", object(vec![("_id", RawValue::text("x"))]));
    let event = ChangeEvent::new(&record).unwrap();
    assert!(event.deleted);
    assert_eq!(event.doc, None);
}

#[test]
fn deleted_flag_that_counts_as_false_is_no_deletion() {
    for flag in [RawValue::Bool(false), RawValue::Null, RawValue::integer(0), RawValue::text("")] {
        let mut record = change("x", "2-b", 6);
        record.set("deleted", flag);
        record.set("doc", object(vec![("_id", RawValue::text("x"))]));
        let event = ChangeEvent::new(&record).unwrap();
        assert!(!event.deleted);
        assert!(event.doc.is_some());
    }
}

#[test]
fn malformed_document_of_a_change_is_left_out() {
    let mut record = change("x", "1-a", 5);
    record.set("doc", object(vec![("n", RawValue::integer(1))]));
    assert_eq!(ChangeEvent::new(&record).unwrap().doc, None);
}

#[test]
fn change_event_needs_id_changes_and_seq() {
    let failed =
        |record: &RawValue| matches!(ChangeEvent::new(record), Err(Error::Decoding(DecodingFailure::ChangeEvent)));
    assert!(!failed(&change("x", "1-a", 5)));
    let mut no_id = change("x", "1-a", 5);
    no_id.set("id", RawValue::integer(1));
    assert!(failed(&no_id));
    let mut no_changes = change("x", "1-a", 5);
    no_changes.set("changes", RawValue::text("1-a"));
    assert!(failed(&no_changes));
    let mut no_rev = change("x", "1-a", 5);
    no_rev.set(
        "changes",
        RawValue::Array(vec![object(vec![("rev", RawValue::text("1-a"))]), object(vec![])]),
    );
    assert!(failed(&no_rev));
    let mut bare_rev = change("x", "1-a", 5);
    bare_rev.set("changes", RawValue::Array(vec![RawValue::text("1-a")]));
    assert!(failed(&bare_rev));
    let mut no_seq = change("x", "1-a", 5);
    no_seq.set("seq", RawValue::Undefined);
    assert!(failed(&no_seq));
    assert!(failed(&object(vec![
        ("id", RawValue::text("x")),
        ("changes", RawValue::Array(vec![])),
    ])));
    assert!(failed(&RawValue::Null));
}

#[test]
fn change_without_changes_is_a_change() {
    let record = object(vec![
        ("id", RawValue::text("x")),
        ("changes", RawValue::Array(vec![])),
        ("seq", RawValue::text("5-g1AAAA")),
    ]);
    let event = ChangeEvent::new(&record).unwrap();
    assert!(event.changes.is_empty());
    assert_eq!(event.seq, SequenceID(RawValue::text("5-g1AAAA")));
}

#[test]
fn changes_feed_delivers_changes_to_its_listeners() {
    let mut feed = ChangesEventEmitter::new();
    feed.add_change_listener(1);
    feed.add_complete_listener(2);
    feed.add_change_listener(3);
    feed.add_error_listener(4);
    match feed.deliver(&EventName::string("change"), change("x", "1-a", 5)) {
        Delivery::Change { listeners, event } => {
            assert_eq!(listeners, vec![1, 3]);
            assert_eq!(event, ChangeEvent::new(&change("x", "1-a", 5)).unwrap());
        }
        other => panic!("unexpected {:?}", other),
    }
    assert_eq!(feed.subscription(), Subscription::Active);
}

#[test]
fn malformed_change_is_dropped() {
    let mut feed = ChangesEventEmitter::new();
    feed.add_change_listener(1);
    feed.add_error_listener(2);
    assert!(matches!(
        feed.deliver(&EventName::string("change"), object(vec![("id", RawValue::text("x"))])),
        Delivery::Dropped
    ));
    assert_eq!(feed.subscription(), Subscription::Active);
    assert!(matches!(
        feed.deliver(&EventName::string("change"), change("x", "1-a", 5)),
        Delivery::Change { .. }
    ));
}

#[test]
fn event_that_is_none_of_the_feed_is_dropped() {
    let mut feed = ChangesEventEmitter::new();
    feed.add_change_listener(1);
    assert!(matches!(feed.deliver(&EventName::string("paused"), RawValue::Null), Delivery::Dropped));
    assert!(matches!(feed.deliver(&EventName::symbol(1), RawValue::Null), Delivery::Dropped));
}

#[test]
fn completion_ends_the_feed() {
    let mut feed = ChangesEventEmitter::new();
    feed.add_complete_listener(2);
    match feed.deliver(&EventName::string("complete"), RawValue::Null) {
        Delivery::Complete { listeners } => assert_eq!(listeners, vec![2]),
        other => panic!("unexpected {:?}", other),
    }
    assert_eq!(feed.subscription(), Subscription::Completed);
    feed.deliver(&EventName::string("error"), RawValue::text("late"));
    assert_eq!(feed.subscription(), Subscription::Completed);
}

#[test]
fn cancelling_an_ended_feed_still_asks_the_host() {
    let mut completed = ChangesEventEmitter::new();
    completed.add_change_listener(1);
    completed.deliver(&EventName::string("complete"), RawValue::Null);
    assert!(completed.cancel());
    assert_eq!(completed.subscription(), Subscription::Completed);
    assert!(completed.cancel());
    let mut failed = ChangesEventEmitter::new();
    failed.deliver(&EventName::string("error"), RawValue::text("offline"));
    assert!(failed.cancel());
    assert_eq!(failed.subscription(), Subscription::Errored);
    match completed.deliver(&EventName::string("change"), change("x", "1-a", 5)) {
        Delivery::Change { listeners, .. } => assert_eq!(listeners, vec![1]),
        other => panic!("unexpected {:?}", other),
    }
}

#[test]
fn cancelling_an_ended_replication_still_asks_the_host() {
    let mut completed = ReplicationEventEmitter::new();
    completed.add_paused_listener(1);
    completed.deliver(&EventName::string("complete"), RawValue::Null);
    assert!(completed.cancel());
    assert_eq!(completed.subscription(), Subscription::Completed);
    let mut failed = ReplicationEventEmitter::new();
    failed.deliver(&EventName::string("error"), RawValue::text("offline"));
    assert!(failed.cancel());
    assert_eq!(failed.subscription(), Subscription::Errored);
    match completed.deliver(&EventName::string("paused"), RawValue::Null) {
        ReplicationDelivery::Paused { listeners, .. } => assert_eq!(listeners, vec![1]),
        other => panic!("unexpected {:?}", other),
    }
}

#[test]
fn failure_ends_the_feed() {
    let mut feed = ChangesEventEmitter::new();
    feed.add_error_listener(4);
    match feed.deliver(&EventName::string("error"), RawValue::text("offline")) {
        Delivery::Error { listeners, error } => {
            assert_eq!(listeners, vec![4]);
            assert_eq!(error, RawValue::text("offline"));
        }
        other => panic!("unexpected {:?}", other),
    }
    assert_eq!(feed.subscription(), Subscription::Errored);
    feed.deliver(&EventName::string("complete"), RawValue::Null);
    assert_eq!(feed.subscription(), Subscription::Errored);
}

#[test]
fn cancelling_asks_the_host_once_and_keeps_the_listeners() {
    let mut feed = ChangesEventEmitter::new();
    feed.add_change_listener(1);
    feed.add_complete_listener(2);
    assert!(feed.cancel());
    assert_eq!(feed.subscription(), Subscription::Cancelled);
    assert!(!feed.cancel());
    match feed.deliver(&EventName::string("complete"), RawValue::Null) {
        Delivery::Complete { listeners } => assert_eq!(listeners, vec![2]),
        other => panic!("unexpected {:?}", other),
    }
    assert_eq!(feed.subscription(), Subscription::Cancelled);
    match feed.deliver(&EventName::string("change"), change("x", "1-a", 5)) {
        Delivery::Change { listeners, .. } => assert_eq!(listeners, vec![1]),
        other => panic!("unexpected {:?}", other),
    }
}

#[test]
fn releasing_a_feed_listener_leaves_the_others() {
    let mut feed = ChangesEventEmitter::new();
    let first = feed.add_change_listener(1);
    feed.add_change_listener(2);
    feed.remove_listener(first);
    match feed.deliver(&EventName::string("change"), change("x", "1-a", 5)) {
        Delivery::Change { listeners, .. } => assert_eq!(listeners, vec![2]),
        other => panic!("unexpected {:?}", other),
    }
}

#[test]
fn disposing_a_feed_removes_every_registration() {
    let mut feed = ChangesEventEmitter::new();
    let _kept = feed.add_change_listener(1);
    feed.add_complete_listener(2);
    feed.add_error_listener(3);
    feed.dispose();
    match feed.deliver(&EventName::string("change"), change("x", "1-a", 5)) {
        Delivery::Change { listeners, .. } => assert!(listeners.is_empty()),
        other => panic!("unexpected {:?}", other),
    }
    match feed.deliver(&EventName::string("error"), RawValue::Null) {
        Delivery::Error { listeners, .. } => assert!(listeners.is_empty()),
        other => panic!("unexpected {:?}", other),
    }
    match feed.deliver(&EventName::string("complete"), RawValue::Null) {
        Delivery::Complete { listeners } => assert!(listeners.is_empty()),
        other => panic!("unexpected {:?}", other),
    }
}

#[test]
fn replication_delivers_each_of_its_events() {
    let mut replication = ReplicationEventEmitter::new();
    replication.add_change_listener(1);
    replication.add_complete_listener(2);
    replication.add_paused_listener(3);
    replication.add_active_listener(4);
    replication.add_denied_listener(5);
    replication.add_error_listener(6);
    let info = object(vec![("docs_written", RawValue::integer(2))]);
    match replication.deliver(&EventName::string("change"), info.clone()) {
        ReplicationDelivery::Change { listeners, info: sent } => {
            assert_eq!(listeners, vec![1]);
            assert_eq!(sent, info);
        }
        other => panic!("unexpected {:?}", other),
    }
    match replication.deliver(&EventName::string("paused"), RawValue::text("offline")) {
        ReplicationDelivery::Paused { listeners, error } => {
            assert_eq!(listeners, vec![3]);
            assert_eq!(error, RawValue::text("offline"));
        }
        other => panic!("unexpected {:?}", other),
    }
    match replication.deliver(&EventName::string("active"), RawValue::Undefined) {
        ReplicationDelivery::Active { listeners } => assert_eq!(listeners, vec![4]),
        other => panic!("unexpected {:?}", other),
    }
    match replication.deliver(&EventName::string("denied"), RawValue::text("no")) {
        ReplicationDelivery::Denied { listeners, error } => {
            assert_eq!(listeners, vec![5]);
            assert_eq!(error, RawValue::text("no"));
        }
        other => panic!("unexpected {:?}", other),
    }
    assert_eq!(replication.subscription(), Subscription::Active);
    match replication.deliver(&EventName::string("error"), RawValue::text("fatal")) {
        ReplicationDelivery::Error { listeners, error } => {
            assert_eq!(listeners, vec![6]);
            assert_eq!(error, RawValue::text("fatal"));
        }
        other => panic!("unexpected {:?}", other),
    }
    assert_eq!(replication.subscription(), Subscription::Errored);
    match replication.deliver(&EventName::string("complete"), RawValue::Null) {
        ReplicationDelivery::Complete { listeners } => assert_eq!(listeners, vec![2]),
        other => panic!("unexpected {:?}", other),
    }
    assert_eq!(replication.subscription(), Subscription::Errored);
    assert!(matches!(
        replication.deliver(&EventName::string("unknown"), RawValue::Null),
        ReplicationDelivery::Dropped
    ));
}

#[test]
fn replication_cancels_and_disposes_like_a_feed() {
    let mut replication = ReplicationEventEmitter::new();
    let first = replication.add_paused_listener(1);
    replication.add_paused_listener(2);
    assert!(replication.cancel());
    assert!(!replication.cancel());
    assert_eq!(replication.subscription(), Subscription::Cancelled);
    replication.remove_listener(first);
    match replication.deliver(&EventName::string("paused"), RawValue::Null) {
        ReplicationDelivery::Paused { listeners, .. } => assert_eq!(listeners, vec![2]),
        other => panic!("unexpected {:?}", other),
    }
    replication.dispose();
    match replication.deliver(&EventName::string("paused"), RawValue::Null) {
        ReplicationDelivery::Paused { listeners, .. } => assert!(listeners.is_empty()),
        other => panic!("unexpected {:?}", other),
    }
    let mut completed = ReplicationEventEmitter::new();
    completed.deliver(&EventName::string("complete"), RawValue::Null);
    assert_eq!(completed.subscription(), Subscription::Completed);
}

#[test]
fn tokens_are_the_same_by_value() {
    assert!(SequenceID(RawValue::integer(5)).same(&SequenceID(RawValue::integer(5))));
    assert!(!SequenceID(RawValue::integer(5)).same(&SequenceID(RawValue::text("5"))));
    assert!(Revision(RawValue::text("1-a")).same(&Revision(RawValue::text("1-a"))));
    assert!(!Revision(RawValue::text("1-a")).same(&Revision(RawValue::text("1-b"))));
    assert_eq!(SequenceID(RawValue::integer(5)).clone(), SequenceID(RawValue::integer(5)));
}
