use microclaw::bus::Bus;
use microclaw::protocol::{Envelope, MessageId};

fn envelope(device: &str, id: &str, seq: u64) -> Envelope {
    let mut env = Envelope::new("device", device, "sess_default", MessageId::new(id));
    env.seq = seq;
    env
}

#[test]
fn drops_duplicate_message_ids() {
    let mut bus = Bus::open_in_memory();
    let env = Envelope::new("device", "dev1", "sess_default", MessageId::new("m1"));
    assert!(bus.publish(env.clone()));
    assert!(!bus.publish(env));
}

#[test]
fn replays_events_after_seq() {
    let mut bus = Bus::open_in_memory();
    let mut env1 = Envelope::new("device", "dev1", "sess_default", MessageId::new("m1"));
    let mut env2 = Envelope::new("device", "dev1", "sess_default", MessageId::new("m2"));
    env1.seq = 1;
    env2.seq = 2;
    bus.publish(env1.clone());
    bus.publish(env2.clone());

    let replay = bus.replay_from_seq(0);
    assert_eq!(replay.len(), 2);
    assert_eq!(replay[0].message_id.as_str(), "m1");
    assert_eq!(replay[1].message_id.as_str(), "m2");
}

#[test]
fn assigns_sequence_when_missing() {
    let mut bus = Bus::open_in_memory();
    let mut env1 = Envelope::new("device", "dev1", "sess_default", MessageId::new("m1"));
    let mut env2 = Envelope::new("device", "dev1", "sess_default", MessageId::new("m2"));
    env1.seq = 0;
    env2.seq = 0;
    bus.publish(env1);
    bus.publish(env2);
    let replay = bus.replay_from_seq(0);
    assert_eq!(replay.len(), 2);
    assert_eq!(replay[0].seq, 1);
    assert_eq!(replay[1].seq, 2);
}

#[test]
fn restored_log_replays_and_continues() {
    let mut bus = Bus::open_in_memory();
    bus.publish(envelope("dev1", "m1", 0));
    bus.publish(envelope("dev1", "m2", 7));
    let rows: Vec<Envelope> = bus.rows().iter().cloned().collect();
    drop(bus);

    let mut bus = Bus::restore(rows).expect("rows written by a log");
    assert_eq!(bus.last_seq(), 7);
    let replay = bus.replay_from_seq(0);
    assert_eq!(replay.len(), 2);
    assert_eq!(replay[0].message_id.as_str(), "m1");
    assert_eq!(replay[1].seq, 7);
    assert!(!bus.publish(envelope("dev1", "m1", 99)));
    assert!(bus.publish(envelope("dev1", "m3", 3)));
    assert_eq!(bus.last_seq(), 8);
    assert_eq!(bus.rows()[2].seq, 8);
}

#[test]
fn restore_refuses_rows_no_log_could_have_written() {
    assert!(Bus::restore(vec![]).is_some());
    assert_eq!(Bus::restore(vec![]).unwrap().last_seq(), 0);
    // sequence numbers must grow strictly
    assert!(Bus::restore(vec![envelope("d", "a", 2), envelope("d", "b", 2)]).is_none());
    assert!(Bus::restore(vec![envelope("d", "a", 2), envelope("d", "b", 1)]).is_none());
    // a message id may occur once per device
    assert!(Bus::restore(vec![envelope("d", "a", 1), envelope("d", "a", 2)]).is_none());
    assert!(Bus::restore(vec![
        envelope("d", "a", 1),
        envelope("d", "b", 2),
        envelope("d", "a", 3)
    ])
    .is_none());
    // the same id for another device is another message
    let bus = Bus::restore(vec![envelope("d1", "a", 1), envelope("d2", "a", 5)]).expect("log");
    assert_eq!(bus.last_seq(), 5);
    // a first row may carry sequence number 0
    assert!(Bus::restore(vec![envelope("d", "a", 0), envelope("d", "b", 1)]).is_some());
}

#[test]
fn publish_is_idempotent_per_device() {
    let mut bus = Bus::open_in_memory();
    assert!(bus.publish(envelope("dev1", "m1", 1)));
    // same id, other device: a new row
    assert!(bus.publish(envelope("dev2", "m1", 1)));
    // same id and device, whatever the rest says: no row
    let mut other = Envelope::new("host", "dev1", "other-session", MessageId::new("m1"));
    other.seq = 50;
    assert!(!bus.publish(other));
    assert_eq!(bus.rows().len(), 2);
    assert_eq!(bus.last_seq(), 2);
}

#[test]
fn publish_keeps_a_sequence_number_that_is_ahead() {
    let mut bus = Bus::open_in_memory();
    assert!(bus.publish(envelope("d", "a", 10)));
    assert_eq!(bus.last_seq(), 10);
    assert!(bus.publish(envelope("d", "b", 10)));
    assert_eq!(bus.last_seq(), 11);
    assert!(bus.publish(envelope("d", "c", 5)));
    assert_eq!(bus.last_seq(), 12);
    assert!(bus.publish(envelope("d", "e", 100)));
    let seqs: Vec<u64> = bus.rows().iter().map(|row| row.seq).collect();
    assert_eq!(seqs, vec![10, 11, 12, 100]);
    // everything else of the envelope is stored as it came
    assert_eq!(bus.rows()[2].message_id.as_str(), "c");
    assert_eq!(bus.rows()[2].source, "device");
    assert_eq!(bus.rows()[2].session_id, "sess_default");
    assert_eq!(bus.rows()[2].v, 1);
}

#[test]
fn replay_returns_exactly_what_lies_after_the_cursor() {
    let mut bus = Bus::open_in_memory();
    for (id, seq) in [("a", 3u64), ("b", 4), ("c", 9), ("d", 10)] {
        assert!(bus.publish(envelope("d", id, seq)));
    }
    let ids = |after: u64| -> Vec<String> {
        bus.replay_from_seq(after)
            .iter()
            .map(|env| env.message_id.as_str().to_string())
            .collect()
    };
    assert_eq!(ids(0), vec!["a", "b", "c", "d"]);
    assert_eq!(ids(2), vec!["a", "b", "c", "d"]);
    assert_eq!(ids(3), vec!["b", "c", "d"]);
    assert_eq!(ids(4), vec!["c", "d"]);
    assert_eq!(ids(8), vec!["c", "d"]);
    assert_eq!(ids(9), vec!["d"]);
    assert_eq!(ids(10), Vec::<String>::new());
    assert_eq!(ids(u64::MAX), Vec::<String>::new());
}

#[test]
fn publish_takes_the_last_sequence_number() {
    let mut bus = Bus::open_in_memory();
    assert!(bus.publish(envelope("d", "a", u64::MAX - 1)));
    assert_eq!(bus.last_seq(), u64::MAX - 1);
    assert!(bus.publish(envelope("d", "b", 0)));
    assert_eq!(bus.last_seq(), u64::MAX);
    assert_eq!(bus.replay_from_seq(u64::MAX - 1).len(), 1);
}
