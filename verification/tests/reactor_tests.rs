use epoll_reactor::flags::{EventFlags, EPOLLERR, EPOLLHUP, EPOLLIN, EPOLLOUT, EPOLLRDHUP};
use epoll_reactor::reactor::{
    decode_events, Connection, Decision, Event, Notification, PeerAddr, Reactor, ReactorError,
    CLIENT_INTEREST, LISTENER_INTEREST,
};

const LISTENER: i32 = 4;

fn readable() -> EventFlags {
    EventFlags::from_bits(EPOLLIN)
}

#[test]
fn new_reactor_tracks_only_the_listener() {
    let reactor = Reactor::new(LISTENER);
    assert_eq!(reactor.listen_fd(), LISTENER);
    assert_eq!(reactor.connection_count(), 0);
    assert_eq!(reactor.interest_of(LISTENER), Some(LISTENER_INTEREST));
    assert!(!reactor.is_tracked(LISTENER));
    assert_eq!(reactor.lookup(7), None);
}

#[test]
fn listener_event_asks_for_accept() {
    let mut reactor = Reactor::new(LISTENER);
    let decision = reactor.handle_event(Event { fd: LISTENER, flags: readable() });
    assert_eq!(decision, Ok(Decision::Accept));
    // Deciding to accept changes nothing by itself.
    assert_eq!(reactor.connection_count(), 0);
}

#[test]
fn client_connect_establishes_once() {
    let mut reactor = Reactor::new(LISTENER);
    let peer = PeerAddr { ip: 0x7F00_0001, port: 42000 };
    let notification = reactor.handle_accepted(7, peer);
    // Exactly one established notification, with the correct peer.
    assert_eq!(notification, Ok(Notification::Established { fd: 7, peer }));
    // The descriptor is immediately present in the table ...
    assert!(reactor.is_tracked(7));
    assert_eq!(reactor.lookup(7), Some(Connection { fd: 7, peer }));
    assert_eq!(reactor.connection_count(), 1);
    // ... and registered with the client interest set, in lock-step.
    assert_eq!(reactor.interest_of(7), Some(CLIENT_INTEREST));
}

#[test]
fn accepting_a_tracked_descriptor_is_a_defect() {
    let mut reactor = Reactor::new(LISTENER);
    let peer = PeerAddr { ip: 0x7F00_0001, port: 42000 };
    let other = PeerAddr { ip: 0x7F00_0001, port: 42001 };
    assert!(reactor.handle_accepted(7, peer).is_ok());
    assert_eq!(
        reactor.handle_accepted(7, other),
        Err(ReactorError::DuplicateDescriptor { fd: 7 })
    );
    assert_eq!(
        reactor.handle_accepted(LISTENER, other),
        Err(ReactorError::DuplicateDescriptor { fd: LISTENER })
    );
    // The rejected calls changed nothing.
    assert_eq!(reactor.connection_count(), 1);
    assert_eq!(reactor.lookup(7), Some(Connection { fd: 7, peer }));
}

#[test]
fn readable_client_gets_exactly_one_read() {
    let mut reactor = Reactor::new(LISTENER);
    let peer = PeerAddr { ip: 0x0A00_0001, port: 5123 };
    reactor.handle_accepted(7, peer).unwrap();
    // One readiness event asks for exactly one bounded read, for the
    // right peer, and tears nothing down.
    let decision = reactor.handle_event(Event { fd: 7, flags: readable() });
    assert_eq!(decision, Ok(Decision::Service { read: Some(peer), closed: None }));
    assert!(reactor.is_tracked(7));
    assert_eq!(reactor.connection_count(), 1);
}

#[test]
fn peer_close_tears_down_once() {
    let mut reactor = Reactor::new(LISTENER);
    let peer = PeerAddr { ip: 0x0A00_0001, port: 5123 };
    reactor.handle_accepted(7, peer).unwrap();
    let decision = reactor.handle_event(Event { fd: 7, flags: EventFlags::from_bits(EPOLLRDHUP) });
    // Exactly one closed notification, with the correct peer.
    assert_eq!(decision, Ok(Decision::Service { read: None, closed: Some(peer) }));
    // The descriptor is gone from the table and the registry alike.
    assert!(!reactor.is_tracked(7));
    assert_eq!(reactor.lookup(7), None);
    assert_eq!(reactor.interest_of(7), None);
    assert_eq!(reactor.connection_count(), 0);
    // A later event for the departed descriptor is the fatal defect.
    let late = reactor.handle_event(Event { fd: 7, flags: readable() });
    assert_eq!(late, Err(ReactorError::UnknownDescriptor { fd: 7 }));
}

#[test]
fn hangup_with_pending_data_reads_then_closes() {
    let mut reactor = Reactor::new(LISTENER);
    let peer = PeerAddr { ip: 0xC0A8_0101, port: 80 };
    reactor.handle_accepted(9, peer).unwrap();
    // A single event can be readable and hung up at once: the decision
    // orders the final read before the teardown.
    let flags = EventFlags::from_bits(EPOLLIN | EPOLLHUP);
    let decision = reactor.handle_event(Event { fd: 9, flags });
    assert_eq!(decision, Ok(Decision::Service { read: Some(peer), closed: Some(peer) }));
    assert!(!reactor.is_tracked(9));
}

#[test]
fn two_clients_stay_independent() {
    let mut reactor = Reactor::new(LISTENER);
    let first = PeerAddr { ip: 0x7F00_0001, port: 50001 };
    let second = PeerAddr { ip: 0x7F00_0002, port: 50002 };
    // Both connects yield independent notifications with distinct
    // descriptors and non-aliased peer addresses.
    assert_eq!(
        reactor.handle_accepted(7, first),
        Ok(Notification::Established { fd: 7, peer: first })
    );
    assert_eq!(
        reactor.handle_accepted(8, second),
        Ok(Notification::Established { fd: 8, peer: second })
    );
    assert_eq!(reactor.connection_count(), 2);
    assert_eq!(reactor.lookup(7), Some(Connection { fd: 7, peer: first }));
    assert_eq!(reactor.lookup(8), Some(Connection { fd: 8, peer: second }));
    // Reading from one never names the other's peer.
    let decision = reactor.handle_event(Event { fd: 7, flags: readable() });
    assert_eq!(decision, Ok(Decision::Service { read: Some(first), closed: None }));
    // Closing one leaves the other tracked.
    reactor.handle_event(Event { fd: 7, flags: EventFlags::from_bits(EPOLLHUP) }).unwrap();
    assert!(!reactor.is_tracked(7));
    assert!(reactor.is_tracked(8));
    assert_eq!(reactor.lookup(8), Some(Connection { fd: 8, peer: second }));
}

#[test]
fn event_without_interesting_conditions_is_a_no_op() {
    let mut reactor = Reactor::new(LISTENER);
    let peer = PeerAddr { ip: 1, port: 1 };
    reactor.handle_accepted(7, peer).unwrap();
    // A writable-only event asks for nothing and touches no state — even
    // for a descriptor the table does not hold.
    let on_client = reactor.handle_event(Event { fd: 7, flags: EventFlags::from_bits(EPOLLOUT) });
    assert_eq!(on_client, Ok(Decision::Service { read: None, closed: None }));
    let on_unknown = reactor.handle_event(Event { fd: 99, flags: EventFlags::empty() });
    assert_eq!(on_unknown, Ok(Decision::Service { read: None, closed: None }));
    assert_eq!(reactor.connection_count(), 1);
}

#[test]
fn error_condition_alone_is_not_a_teardown() {
    let mut reactor = Reactor::new(LISTENER);
    let peer = PeerAddr { ip: 1, port: 2 };
    reactor.handle_accepted(7, peer).unwrap();
    let decision = reactor.handle_event(Event { fd: 7, flags: EventFlags::from_bits(EPOLLERR) });
    assert_eq!(decision, Ok(Decision::Service { read: None, closed: None }));
    assert!(reactor.is_tracked(7));
}

#[test]
fn decode_preserves_descriptors_and_truncates_flags() {
    let raw = vec![(5, EPOLLIN), (7, EPOLLHUP | 0x40), (9, 0x40)];
    let events = decode_events(&raw);
    assert_eq!(events.len(), 3);
    assert_eq!(events[0], Event { fd: 5, flags: EventFlags::from_bits(EPOLLIN) });
    assert_eq!(events[1], Event { fd: 7, flags: EventFlags::from_bits(EPOLLHUP) });
    assert_eq!(events[2], Event { fd: 9, flags: EventFlags::empty() });
}

#[test]
fn decode_of_an_empty_batch_is_empty() {
    // A wait that timed out hands back an empty batch, which decodes to
    // no events and so to no decisions at all.
    let raw: Vec<(i32, u32)> = vec![];
    assert_eq!(decode_events(&raw).len(), 0);
}

#[test]
fn table_and_registry_stay_in_lock_step() {
    let mut reactor = Reactor::new(LISTENER);
    let fds = [7, 8, 9];
    for (i, fd) in fds.iter().enumerate() {
        let peer = PeerAddr { ip: 0x7F00_0001, port: 51000 + i as u16 };
        reactor.handle_accepted(*fd, peer).unwrap();
    }
    reactor.handle_event(Event { fd: 8, flags: EventFlags::from_bits(EPOLLRDHUP) }).unwrap();
    // After each event the table's keys equal the registered descriptors,
    // the listener excluded.
    for fd in [7, 8, 9, 99] {
        assert_eq!(reactor.is_tracked(fd), reactor.interest_of(fd).is_some());
    }
    assert!(reactor.interest_of(LISTENER).is_some());
    assert!(!reactor.is_tracked(LISTENER));
}
