use umbra::ipc::{
    Capability, Endpoint, EndpointId, EndpointRegistry, IpcState, Message, MessageQueue, SendError,
    IPC_MSG_DATA_SIZE, MAX_ENDPOINTS, MAX_PENDING_MESSAGES,
};

fn msg(tag: u32) -> Message {
    Message::new(tag, &[tag as u8])
}

#[test]
fn message_new_pads_and_truncates() {
    let m = Message::new(7, &[1, 2, 3]);
    assert_eq!(m.tag, 7);
    assert_eq!(&m.data[..3], &[1, 2, 3]);
    assert!(m.data[3..].iter().all(|&b| b == 0));

    let long = [0xAAu8; 100];
    let m = Message::new(1, &long);
    assert_eq!(m.data.len(), IPC_MSG_DATA_SIZE);
    assert!(m.data.iter().all(|&b| b == 0xAA));
}

#[test]
fn message_empty_is_zero() {
    let m = Message::empty();
    assert_eq!(m.tag, 0);
    assert!(m.data.iter().all(|&b| b == 0));
    assert_eq!(Message::default(), m);
    assert_eq!(Message::new(0, &[]), m);
}

#[test]
fn queue_is_fifo() {
    let mut q = MessageQueue::new();
    assert!(q.is_empty());
    for t in 0..5 {
        assert!(q.send(msg(t)).is_ok());
    }
    assert_eq!(q.len(), 5);
    for t in 0..5 {
        assert_eq!(q.recv(), Some(msg(t)));
    }
    assert_eq!(q.recv(), None);
    assert!(q.is_empty());
}

#[test]
fn queue_full_hands_message_back() {
    let mut q = MessageQueue::new();
    for t in 0..MAX_PENDING_MESSAGES as u32 {
        assert!(q.send(msg(t)).is_ok());
    }
    assert_eq!(q.len(), MAX_PENDING_MESSAGES);
    assert_eq!(q.send(msg(99)), Err(msg(99)));
    assert_eq!(q.recv(), Some(msg(0)));
    assert!(q.send(msg(100)).is_ok());
    for t in 1..MAX_PENDING_MESSAGES as u32 {
        assert_eq!(q.recv(), Some(msg(t)));
    }
    assert_eq!(q.recv(), Some(msg(100)));
}

#[test]
fn queue_wraps_around_many_times() {
    let mut q = MessageQueue::new();
    for round in 0..50u32 {
        assert!(q.send(msg(round)).is_ok());
        assert!(q.send(msg(round + 1000)).is_ok());
        assert_eq!(q.recv(), Some(msg(round)));
        assert_eq!(q.recv(), Some(msg(round + 1000)));
    }
    assert!(q.is_empty());
}

#[test]
fn endpoint_queues_are_separate() {
    let mut e = Endpoint::new(EndpointId(3), Some(2));
    assert_eq!(e.id, EndpointId(3));
    assert!(!e.has_messages());
    assert!(e.send(msg(1)).is_ok());
    assert!(!e.has_messages());
    assert_eq!(e.recv(), None);
    assert!(e.deliver(msg(2)).is_ok());
    assert!(e.has_messages());
    assert_eq!(e.recv(), Some(msg(2)));
}

#[test]
fn registry_creates_first_free_from_hint() {
    let mut r = EndpointRegistry::new();
    assert_eq!(r.create_endpoint(None), Some(EndpointId(0)));
    assert_eq!(r.create_endpoint(Some(1)), Some(EndpointId(1)));
    assert!(r.claim_endpoint(EndpointId(2), Some(4)).is_ok());
    assert_eq!(r.create_endpoint(None), Some(EndpointId(3)));
    assert!(r.destroy(EndpointId(0)).is_some());
    // The search continues after the last created slot, then wraps around.
    assert_eq!(r.create_endpoint(None), Some(EndpointId(4)));
    for expect in 5..MAX_ENDPOINTS {
        assert_eq!(r.create_endpoint(None), Some(EndpointId(expect)));
    }
    assert_eq!(r.create_endpoint(None), Some(EndpointId(0)));
    assert_eq!(r.create_endpoint(None), None);
}

#[test]
fn registry_claim_is_exclusive() {
    let mut r = EndpointRegistry::new();
    assert!(r.claim_endpoint(EndpointId(11), Some(3)).is_ok());
    assert!(r.claim_endpoint(EndpointId(11), Some(4)).is_err());
    assert!(r.claim_endpoint(EndpointId(MAX_ENDPOINTS), Some(4)).is_err());
    assert!(r.get(EndpointId(11)).is_some());
    assert!(r.get(EndpointId(12)).is_none());
}

#[test]
fn registry_send_then_recv() {
    let mut r = EndpointRegistry::new();
    assert!(r.claim_endpoint(EndpointId(5), None).is_ok());
    assert!(r.send(EndpointId(5), msg(1)).is_ok());
    assert!(r.send(EndpointId(5), msg(2)).is_ok());
    assert_eq!(r.recv(EndpointId(5)), Some(msg(1)));
    assert_eq!(r.recv(EndpointId(5)), Some(msg(2)));
    assert_eq!(r.recv(EndpointId(5)), None);
}

#[test]
fn registry_send_errors() {
    let mut r = EndpointRegistry::new();
    assert!(matches!(r.send(EndpointId(7), msg(1)), Err(SendError::InvalidEndpoint)));
    assert!(matches!(r.send(EndpointId(1000), msg(1)), Err(SendError::InvalidEndpoint)));
    assert_eq!(r.recv(EndpointId(7)), None);
    assert!(r.claim_endpoint(EndpointId(7), None).is_ok());
    for t in 0..MAX_PENDING_MESSAGES as u32 {
        assert!(r.send(EndpointId(7), msg(t)).is_ok());
    }
    match r.send(EndpointId(7), msg(77)) {
        Err(SendError::QueueFull(m)) => assert_eq!(m, msg(77)),
        _ => panic!("expected a full queue"),
    }
}

#[test]
fn registry_get_mut_and_destroy() {
    let mut r = EndpointRegistry::new();
    assert!(r.claim_endpoint(EndpointId(9), Some(1)).is_ok());
    {
        let e = r.get_mut(EndpointId(9)).unwrap();
        assert!(e.deliver(msg(3)).is_ok());
    }
    assert!(r.get(EndpointId(9)).unwrap().has_messages());
    let e = r.destroy(EndpointId(9)).unwrap();
    assert_eq!(e.id, EndpointId(9));
    assert!(r.get(EndpointId(9)).is_none());
    assert!(r.destroy(EndpointId(9)).is_none());
}

#[test]
fn ipc_state_round_trip() {
    let mut s = IpcState::new();
    let id = s.create_endpoint(Some(1)).unwrap();
    assert_eq!(id, EndpointId(0));
    assert!(!s.handle_kernel_service(id, &msg(1)));
    assert!(s.handle_kernel_call(id, &msg(1)).is_none());
    assert!(s.send(id, msg(4)).is_ok());
    assert_eq!(s.recv(id), Some(msg(4)));
    assert!(s.blocked_sends.iter().all(|b| b.is_none()));
}

#[test]
fn capability_null() {
    let c = Capability::null();
    assert!(c.is_null());
    assert!(!Capability(EndpointId(1)).is_null());
}

#[test]
fn interleaved_sends_and_receives_keep_the_accepted_order() {
    let mut q = MessageQueue::new();
    let mut accepted: Vec<u32> = Vec::new();
    let mut received: Vec<u32> = Vec::new();
    let mut tag = 0u32;
    for round in 0..40u32 {
        let sends = if round % 3 == 0 { 5 } else { 1 };
        for _ in 0..sends {
            tag += 1;
            if q.send(msg(tag)).is_ok() {
                accepted.push(tag);
            }
        }
        if round % 2 == 0 {
            if let Some(m) = q.recv() {
                received.push(m.tag);
            }
        }
        assert!(q.len() <= MAX_PENDING_MESSAGES);
        assert_eq!(q.len(), accepted.len() - received.len());
        assert_eq!(q.is_empty(), accepted.len() == received.len());
        assert_eq!(&accepted[..received.len()], &received[..]);
    }
    assert!(accepted.len() < tag as usize);
    while let Some(m) = q.recv() {
        received.push(m.tag);
    }
    assert_eq!(received, accepted);
}

#[test]
fn endpoint_has_messages_counts_deliveries_and_receives() {
    let mut e = Endpoint::new(EndpointId(4), Some(2));
    assert!(!e.has_messages());
    assert!(e.deliver(msg(1)).is_ok());
    assert!(e.deliver(msg(2)).is_ok());
    assert!(e.has_messages());
    assert_eq!(e.recv().map(|m| m.tag), Some(1));
    assert!(e.has_messages());
    assert_eq!(e.recv().map(|m| m.tag), Some(2));
    assert!(!e.has_messages());
    assert!(e.recv().is_none());
    assert!(!e.has_messages());
    assert_eq!(e.owner(), Some(2));
}

#[test]
fn replies_queue_on_the_outgoing_side() {
    let mut r = EndpointRegistry::new();
    assert!(r.claim_endpoint(EndpointId(16), Some(3)).is_ok());
    assert_eq!(r.owner(EndpointId(16)), Some(3));
    assert_eq!(r.owner(EndpointId(17)), None);
    assert!(r.send(EndpointId(16), msg(1)).is_ok());
    assert!(r.post_reply(EndpointId(16), msg(2)).is_ok());
    assert_eq!(r.take_reply(EndpointId(16)).map(|m| m.tag), Some(2));
    assert!(r.take_reply(EndpointId(16)).is_none());
    assert_eq!(r.recv(EndpointId(16)).map(|m| m.tag), Some(1));
    assert!(matches!(r.post_reply(EndpointId(17), msg(3)), Err(SendError::InvalidEndpoint)));
    assert!(r.take_reply(EndpointId(17)).is_none());
    assert_eq!(r.get(EndpointId(16)).unwrap().id, EndpointId(16));
    assert!(r.get(EndpointId(usize::MAX)).is_none());
}
