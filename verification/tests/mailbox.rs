use ciphermesh::mailbox_storage::{MailboxEnvelopeRecord, MailboxStorage};


fn envelope(id: &str) -> MailboxEnvelopeRecord {
    MailboxEnvelopeRecord {
        message_id: id.to_string(),
        recipient_token: "recipient".to_string(),
        encrypted_payload: vec![1, 2, 3],
        created_at_unix_secs: 10,
        expires_at_unix_secs: Some(200),
    }
}

#[test]
fn duplicate_deposit_does_not_create_duplicate_rows() {
    let mut storage = MailboxStorage::open_in_memory(4);

    assert!(storage.deposit(&envelope("message-1"), 100).expect("first"));
    assert!(!storage
        .deposit(&envelope("message-1"), 100)
        .expect("duplicate"));
    assert_eq!(storage.pending_count(), 1);
}

#[test]
fn fetch_keeps_pending_until_retrieval_ack() {
    let mut storage = MailboxStorage::open_in_memory(4);
    storage
        .deposit(&envelope("message-1"), 100)
        .expect("deposit");

    assert_eq!(
        storage
            .fetch_pending("recipient", 100)
            .len(),
        1
    );
    assert_eq!(
        storage
            .fetch_pending("recipient", 100)
            .len(),
        1
    );

    storage
        .acknowledge_retrieval("message-1", 101);
    assert!(storage
        .fetch_pending("recipient", 102)
        .is_empty());
}

#[test]
fn expired_envelopes_are_not_returned() {
    let mut storage = MailboxStorage::open_in_memory(4);
    storage
        .deposit(&envelope("message-1"), 100)
        .expect("deposit");

    assert!(storage
        .fetch_pending("recipient", 201)
        .is_empty());
}
