use canistore_core::consumer::ConsumerStore;
use canistore_core::message::{Message, MessageType};
use canistore_core::principal::PrincipalId;
use canistore_core::relay::{BatchOutcome, DeliveryOutcome, Outbox};

fn make_message(internal_id: u64, label: &str, now: u64) -> Message {
    Message::new(
        internal_id,
        MessageType::Create,
        label.to_string(),
        vec![1, 2, 3],
        None,
        PrincipalId::new(9),
        "producer".to_string(),
        now,
    )
}

#[test]
fn delivered_message_is_not_retained_and_lands_once_in_the_consumer() {
    let mut outbox = Outbox::new();
    let mut consumer = ConsumerStore::new(5000, 500);

    let m1 = make_message(1, "MsgUserPost", 100);
    let m1_id = m1.msg_id.clone();
    let m1_copy = m1.duplicate();

    // Simulated remote success: the consumer ingests, the producer keeps
    // nothing.
    let r = outbox.send_message(m1, DeliveryOutcome::Accepted(m1_id.clone()));
    assert_eq!(r, Ok(m1_id.clone()));
    assert_eq!(outbox.entries.len(), 0);
    consumer.create_message("MsgUserPost", m1_copy, PrincipalId::new(9));
    assert!(consumer.get_message("MsgUserPost", &m1_id).is_some());

    // Redelivery is idempotent: same id, same count.
    let m1_again = make_message(1, "MsgUserPost", 100);
    consumer.create_message("MsgUserPost", m1_again, PrincipalId::new(9));
    assert_eq!(consumer.live[0].messages.len(), 1);
}

#[test]
fn failed_publish_is_retained_and_retried_in_a_batch() {
    let mut outbox = Outbox::new();
    let mut consumer = ConsumerStore::new(5000, 500);

    let m2 = make_message(2, "MsgUserPost", 200);
    let m2_id = m2.msg_id.clone();

    let r = outbox.send_message(m2, DeliveryOutcome::Failed("no route".to_string()));
    assert!(r.is_err());
    assert_eq!(outbox.entries.len(), 1);
    assert!(outbox.retry_armed);

    // The retry timer fires: the batch drains in insertion order and a
    // successful bulk delivery removes exactly the delivered messages.
    let batch = outbox.take_batch();
    assert_eq!(batch.len(), 1);
    assert_eq!(batch[0].msg_id, m2_id);
    for msg in batch {
        consumer.create_message("MsgUserPost", msg, PrincipalId::new(9));
    }
    let applied = outbox.apply_batch_outcome(1, BatchOutcome::Accepted(1));
    assert_eq!(applied, Ok(1));
    assert_eq!(outbox.entries.len(), 0);
    assert!(!outbox.retry_armed);
    assert!(consumer.get_message("MsgUserPost", &m2_id).is_some());
    assert_eq!(consumer.live[0].messages.len(), 1);
}

#[test]
fn failed_batch_leaves_the_outbox_untouched_and_rearms() {
    let mut outbox = Outbox::new();
    let m = make_message(3, "MsgUserPost", 300);
    outbox.send_message(m, DeliveryOutcome::Rejected("schema".to_string())).unwrap_err();
    assert_eq!(outbox.entries.len(), 1);
    // An application rejection arms the retry timer just like a failed call.
    assert!(outbox.retry_armed);

    let batch = outbox.take_batch();
    let applied = outbox.apply_batch_outcome(batch.len(), BatchOutcome::Failed("down".to_string()));
    assert!(applied.is_err());
    assert_eq!(outbox.entries.len(), 1);
    assert!(outbox.retry_armed);
}

#[test]
fn archival_moves_the_oldest_five_hundred_of_an_oversized_label() {
    let mut consumer = ConsumerStore::new(5000, 500);
    for i in 0..5001u64 {
        let m = make_message(i, "T", 1000 + i);
        consumer.create_message("T", m, PrincipalId::new(4));
    }
    assert!(consumer.archive_armed);
    let (sizes, total) = consumer.get_message_size();
    assert_eq!(total, 5001);
    assert_eq!(sizes.len(), 1);
    assert_eq!(sizes[0].0, "T");
    assert_eq!(sizes[0].1, 5001);

    let oldest_id = consumer.live[0].messages[0].message.msg_id.clone();

    consumer.clean_message_store_task();

    let (sizes_after, live_total) = consumer.get_message_size();
    assert_eq!(sizes_after[0].1, 4501);
    assert_eq!(live_total, 4501);
    assert_eq!(consumer.cold.len(), 1);
    assert_eq!(consumer.cold[0].label, "T");
    assert_eq!(consumer.cold[0].messages.len(), 500);
    // Conservation: live + cold counts add up to what was ingested, and the
    // oldest message moved first.
    assert_eq!(live_total + consumer.cold[0].messages.len(), 5001);
    assert_eq!(consumer.cold[0].messages[0].message.msg_id, oldest_id);
    // The sweep re-arms itself unconditionally.
    assert!(consumer.archive_armed);

    // A label under the threshold is untouched by another sweep.
    consumer.clean_message_store_task();
    assert_eq!(consumer.get_message_size().1, 4501);
    assert_eq!(consumer.cold[0].messages.len(), 500);
}

#[test]
fn deletion_falls_through_from_live_to_cold() {
    let mut consumer = ConsumerStore::new(2, 1);
    for i in 0..3u64 {
        let m = make_message(i, "L", 10 + i);
        consumer.create_message("L", m, PrincipalId::new(1));
    }
    consumer.clean_message_store_task();
    assert_eq!(consumer.live[0].messages.len(), 2);
    assert_eq!(consumer.cold[0].messages.len(), 1);

    let cold_id = consumer.cold[0].messages[0].message.msg_id.clone();
    let live_id = consumer.live[0].messages[0].message.msg_id.clone();

    // A message still live is removed from the live set; the cold set is
    // untouched.
    assert!(consumer.delete_message("L", &live_id).is_ok());
    assert!(consumer.get_message("L", &live_id).is_none());
    assert_eq!(consumer.cold[0].messages.len(), 1);

    // A message absent from the live set is found in the cold set even while
    // the label still holds other live messages.
    assert!(consumer.delete_message("L", &cold_id).is_ok());
    assert!(consumer.cold.is_empty());

    // An id in neither store is an error, and both stores stay as they are.
    let live_before = consumer.live[0].messages.len();
    assert!(consumer.delete_message("L", &cold_id).is_err());
    assert_eq!(consumer.live[0].messages.len(), live_before);
    assert!(consumer.delete_message("M", &cold_id).is_err());
}

#[test]
fn process_message_dispatches_by_kind() {
    let mut consumer = ConsumerStore::new(5000, 500);
    let caller = PrincipalId::new(3);

    let created = make_message(1, "MsgShareTrack", 50);
    let id = created.msg_id.clone();
    assert_eq!(consumer.process_message(created, caller), Ok(id.clone()));
    assert!(consumer.get_message("MsgShareTrack", &id).is_some());

    let mut update = make_message(1, "MsgShareTrack", 50);
    update.msg_type = MessageType::Update;
    update.payload = vec![9, 9];
    assert!(consumer.process_message(update, caller).is_ok());
    let (stored, _) = consumer.get_message("MsgShareTrack", &id).unwrap();
    assert_eq!(stored.payload, vec![9, 9]);

    let mut delete = make_message(1, "MsgShareTrack", 50);
    delete.msg_type = MessageType::Delete;
    assert!(consumer.process_message(delete, caller).is_ok());
    assert!(consumer.get_message("MsgShareTrack", &id).is_none());

    let mut replace = make_message(2, "MsgShareTrack", 60);
    replace.msg_type = MessageType::Replace;
    assert!(consumer.process_message(replace, caller).is_err());

    let unknown = make_message(3, "SomethingElse", 70);
    assert!(consumer.process_message(unknown, caller).is_err());
}

#[test]
fn receive_batch_messages_counts_full_success() {
    let mut consumer = ConsumerStore::new(5000, 500);
    let caller = PrincipalId::new(3);
    let batch = vec![
        make_message(1, "MsgUserInfo", 10),
        make_message(2, "MsgUserPost", 11),
        make_message(3, "MsgShareTrack", 12),
    ];
    assert_eq!(consumer.receive_batch_messages(batch, caller), Ok(3));

    let bad = vec![make_message(4, "Nonsense", 13)];
    assert!(consumer.receive_batch_messages(bad, caller).is_err());
}

#[test]
fn message_id_renders_as_its_three_parts() {
    let m = make_message(12, "MsgUserPost", 34);
    assert_eq!(m.msg_id, "34-12-producer");
    assert_eq!(m.timestamp, 34);
}
