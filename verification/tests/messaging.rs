use whatsapp_sol::errors::MessagingError;
use whatsapp_sol::errors::OpError;
use whatsapp_sol::ledger::Ledger;
use whatsapp_sol::records::MessageThread;

fn key(b: u8) -> [u8; 32] {
    [b; 32]
}

fn thread_id(b: u8) -> [u8; 32] {
    let mut id = [0u8; 32];
    id[31] = b;
    id
}

#[test]
fn derived_address_matches_independent_recomputation() {
    let a = key(1);
    let b = key(2);
    let id = thread_id(1);
    let mut ledger = Ledger::new();
    let addr = ledger.initialize_thread(&a, &b, &id, 1_000, 5_000).unwrap();

    let program_id = whatsapp_sol::addresses::program_id_bytes();
    let pid = solana_pubkey::Pubkey::new_from_array(program_id);
    let (expected, _bump) = solana_pubkey::Pubkey::find_program_address(
        &[b"message_thread", a.as_ref(), b.as_ref(), id.as_ref()],
        &pid,
    );
    assert_eq!(addr, expected.to_bytes());
    assert_ne!(addr, a);
    assert_ne!(addr, b);
    assert_ne!(addr, id);

    let mut other = Ledger::new();
    let again = other.initialize_thread(&a, &b, &id, 9_999, 1).unwrap();
    assert_eq!(addr, again);
}

#[test]
fn channel_and_subscription_addresses_match_recomputation() {
    let owner = key(7);
    let name = b"news".to_vec();
    let mut ledger = Ledger::new();
    let chan = ledger
        .initialize_channel(&owner, name.clone(), 10, 100)
        .unwrap();

    let pid = solana_pubkey::Pubkey::new_from_array(whatsapp_sol::addresses::program_id_bytes());
    let (expected_chan, _) = solana_pubkey::Pubkey::find_program_address(
        &[b"broadcast_channel", owner.as_ref(), name.as_slice()],
        &pid,
    );
    assert_eq!(chan, expected_chan.to_bytes());

    let subscriber = key(8);
    let sub = ledger.subscribe_channel(&subscriber, &chan, 11, 10).unwrap();
    let (expected_sub, _) = solana_pubkey::Pubkey::find_program_address(
        &[b"subscription", chan.as_ref(), subscriber.as_ref()],
        &pid,
    );
    assert_eq!(sub, expected_sub.to_bytes());
}

#[test]
fn accepted_messages_advance_count_by_exactly_one_each() {
    let a = key(1);
    let b = key(2);
    let mut ledger = Ledger::new();
    let addr = ledger.initialize_thread(&a, &b, &thread_id(3), 100, 10).unwrap();

    for i in 0..5u32 {
        let sender = if i % 2 == 0 { a } else { b };
        ledger.send_message(&sender, &addr, i, &[], 100 + i as i64).unwrap();
        let t = ledger.get_thread(&addr).unwrap();
        assert_eq!(t.message_count, i + 1);
        assert_eq!(t.last_message_at, 100 + i as i64);
    }
}

#[test]
fn wrong_index_is_rejected_and_count_unchanged() {
    let a = key(1);
    let b = key(2);
    let mut ledger = Ledger::new();
    let addr = ledger.initialize_thread(&a, &b, &thread_id(4), 100, 10).unwrap();
    ledger.send_message(&a, &addr, 0, &[], 101).unwrap();

    for bad in [0u32, 2, 5, u32::MAX] {
        let r = ledger.send_message(&a, &addr, bad, &[], 102);
        assert_eq!(
            r,
            Err(OpError::Refused(MessagingError::InvalidMessageIndex))
        );
        let t = ledger.get_thread(&addr).unwrap();
        assert_eq!(t.message_count, 1);
        assert_eq!(t.last_message_at, 101);
    }
}

#[test]
fn stranger_is_rejected_regardless_of_index() {
    let a = key(1);
    let b = key(2);
    let stranger = key(9);
    let mut ledger = Ledger::new();
    let addr = ledger.initialize_thread(&a, &b, &thread_id(5), 100, 10).unwrap();

    for idx in [0u32, 1, 7] {
        let r = ledger.send_message(&stranger, &addr, idx, &[], 101);
        assert_eq!(
            r,
            Err(OpError::Refused(MessagingError::UnauthorizedSender))
        );
    }
    assert_eq!(ledger.get_thread(&addr).unwrap().message_count, 0);
}

#[test]
fn non_owner_cannot_broadcast() {
    let owner = key(3);
    let other = key(4);
    let mut ledger = Ledger::new();
    let chan = ledger
        .initialize_channel(&owner, b"feed".to_vec(), 50, 10)
        .unwrap();

    let r = ledger.send_broadcast(&other, &chan, 0, &[], 51);
    assert_eq!(
        r,
        Err(OpError::Refused(MessagingError::UnauthorizedSender))
    );
    assert_eq!(ledger.channel_message_count(&chan), Some(0));

    ledger.send_broadcast(&owner, &chan, 0, &[], 51).unwrap();
    ledger.send_broadcast(&owner, &chan, 1, &[], 52).unwrap();
    assert_eq!(ledger.channel_message_count(&chan), Some(2));
}

#[test]
fn long_channel_name_is_rejected_before_any_allocation() {
    let owner = key(3);
    let mut ledger = Ledger::new();
    let long_name = vec![b'x'; 33];
    let r = ledger.initialize_channel(&owner, long_name, 50, 10);
    assert_eq!(
        r,
        Err(OpError::Refused(MessagingError::ChannelNameTooLong))
    );

    let exact_name = vec![b'y'; 32];
    let chan = ledger
        .initialize_channel(&owner, exact_name.clone(), 50, 10)
        .unwrap();
    assert_eq!(ledger.channel_message_count(&chan), Some(0));
    let record = ledger.get_channel(&chan).unwrap();
    assert_eq!(record.owner, owner);
    assert_eq!(record.channel_name, exact_name);
    assert_eq!(record.subscriber_count, 0);
    assert_eq!(record.created_at, 50);
    assert_eq!(record.last_broadcast_at, 0);

    let empty = ledger.initialize_channel(&owner, Vec::new(), 50, 10).unwrap();
    assert_ne!(chan, empty);
}

#[test]
fn second_subscription_of_same_pair_fails() {
    let owner = key(3);
    let subscriber = key(5);
    let mut ledger = Ledger::new();
    let chan = ledger
        .initialize_channel(&owner, b"feed".to_vec(), 50, 10)
        .unwrap();

    let sub = ledger.subscribe_channel(&subscriber, &chan, 60, 5).unwrap();
    assert_eq!(ledger.channel_subscriber_count(&chan), Some(1));
    let record = ledger.get_subscription(&sub).unwrap();
    assert_eq!(record.subscriber, subscriber);
    assert_eq!(record.channel, chan);
    assert_eq!(record.subscribed_at, 60);
    assert_eq!(record.last_read_index, 0);

    let r = ledger.subscribe_channel(&subscriber, &chan, 61, 5);
    assert_eq!(r, Err(OpError::AddressAlreadyExists));
    assert_eq!(ledger.channel_subscriber_count(&chan), Some(1));

    let other = key(6);
    ledger.subscribe_channel(&other, &chan, 62, 5).unwrap();
    assert_eq!(ledger.channel_subscriber_count(&chan), Some(2));
}

#[test]
fn close_thread_only_by_participant_a() {
    let a = key(1);
    let b = key(2);
    let recipient = key(9);
    let mut ledger = Ledger::new();
    let addr = ledger.initialize_thread(&a, &b, &thread_id(6), 100, 777).unwrap();

    let r = ledger.close_thread(&b, &addr, &recipient);
    assert_eq!(
        r.unwrap_err(),
        OpError::Refused(MessagingError::UnauthorizedSender)
    );
    assert!(ledger.get_thread(&addr).is_some());

    let refund = ledger.close_thread(&a, &addr, &recipient).unwrap();
    assert_eq!(refund.amount, 777);
    assert_eq!(refund.recipient, recipient);
    assert!(ledger.get_thread(&addr).is_none());

    let again = ledger.close_thread(&a, &addr, &recipient);
    assert_eq!(again.unwrap_err(), OpError::AddressNotFound);
}

#[test]
fn close_channel_only_by_owner_and_subscriptions_stay() {
    let owner = key(3);
    let subscriber = key(5);
    let recipient = key(9);
    let mut ledger = Ledger::new();
    let chan = ledger
        .initialize_channel(&owner, b"feed".to_vec(), 50, 333)
        .unwrap();
    let sub = ledger.subscribe_channel(&subscriber, &chan, 60, 5).unwrap();

    let r = ledger.close_channel(&subscriber, &chan, &recipient);
    assert_eq!(
        r.unwrap_err(),
        OpError::Refused(MessagingError::UnauthorizedSender)
    );

    let refund = ledger.close_channel(&owner, &chan, &recipient).unwrap();
    assert_eq!(refund.amount, 333);
    assert_eq!(refund.recipient, recipient);
    assert_eq!(ledger.channel_message_count(&chan), None);

    // The subscription record outlives its channel: its back-reference now
    // points at no record.
    let record = ledger.get_subscription(&sub).unwrap();
    assert_eq!(record.channel, chan);
}

#[test]
fn duplicate_thread_creation_fails() {
    let a = key(1);
    let b = key(2);
    let mut ledger = Ledger::new();
    let addr = ledger.initialize_thread(&a, &b, &thread_id(7), 100, 10).unwrap();
    let r = ledger.initialize_thread(&a, &b, &thread_id(7), 200, 10);
    assert_eq!(r, Err(OpError::AddressAlreadyExists));
    assert_eq!(ledger.get_thread(&addr).unwrap().created_at, 100);
}

#[test]
fn operations_on_absent_addresses_fail() {
    let a = key(1);
    let mut ledger = Ledger::new();
    let nowhere = key(42);
    assert_eq!(
        ledger.send_message(&a, &nowhere, 0, &[], 10),
        Err(OpError::AddressNotFound)
    );
    assert_eq!(
        ledger.send_broadcast(&a, &nowhere, 0, &[], 10),
        Err(OpError::AddressNotFound)
    );
    assert_eq!(
        ledger.subscribe_channel(&a, &nowhere, 10, 5),
        Err(OpError::AddressNotFound)
    );
    assert!(matches!(
        ledger.close_thread(&a, &nowhere, &a),
        Err(OpError::AddressNotFound)
    ));
    assert!(matches!(
        ledger.close_channel(&a, &nowhere, &a),
        Err(OpError::AddressNotFound)
    ));
}

#[test]
fn self_thread_is_permitted() {
    // Nothing prevents a thread whose two participants are the same
    // principal; the permissive behavior is kept deliberately.
    let a = key(1);
    let mut ledger = Ledger::new();
    let addr = ledger.initialize_thread(&a, &a, &thread_id(8), 100, 10).unwrap();
    ledger.send_message(&a, &addr, 0, &[], 101).unwrap();
    assert_eq!(ledger.get_thread(&addr).unwrap().message_count, 1);
}

#[test]
fn counter_at_width_reports_overflow() {
    let a = key(1);
    let b = key(2);
    let mut t = MessageThread {
        participant_a: a,
        participant_b: b,
        thread_id: thread_id(9),
        message_count: u32::MAX,
        created_at: 0,
        last_message_at: 5,
    };
    let r = t.send(&a, u32::MAX, 6);
    assert_eq!(r, Err(OpError::ArithmeticOverflow));
    assert_eq!(t.message_count, u32::MAX);
}

#[test]
fn example_scenario_two_party_exchange() {
    let a = key(0xAA);
    let b = key(0xBB);
    let mut ledger = Ledger::new();
    let addr = ledger.initialize_thread(&a, &b, &thread_id(1), 1_000, 10).unwrap();

    ledger.send_message(&a, &addr, 0, &[], 1_001).unwrap();
    assert_eq!(ledger.get_thread(&addr).unwrap().message_count, 1);

    ledger.send_message(&b, &addr, 1, &[], 1_002).unwrap();
    assert_eq!(ledger.get_thread(&addr).unwrap().message_count, 2);

    let r = ledger.send_message(&a, &addr, 1, &[], 1_003);
    assert_eq!(
        r,
        Err(OpError::Refused(MessagingError::InvalidMessageIndex))
    );
    assert_eq!(ledger.get_thread(&addr).unwrap().message_count, 2);
}
