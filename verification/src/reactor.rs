//! The event loop's state and decisions: the connection table, kept in
//! lock-step with the interest registry, and the per-event accept / read /
//! teardown choices.
//!
//! The reactor decides; the surrounding I/O layer performs. Each readiness
//! event goes through [`Reactor::handle_event`], which says what to do
//! (accept, read, tear down) and updates the table; an accept that
//! succeeded is reported back through [`Reactor::handle_accepted`]. The
//! byte-stream handles themselves stay with the I/O layer, keyed by the
//! same descriptors.

use vstd::prelude::*;
use std::collections::HashMap;
use crate::flags::{
    ALL_EVENT_BITS, EPOLLET, EPOLLEXCLUSIVE, EPOLLHUP, EPOLLIN, EPOLLRDHUP, EventFlags, has_bits,
};
use crate::registry::{add_bits_valid, InterestRegistry};

verus! {

broadcast use vstd::std_specs::hash::group_hash_axioms;

/// The interest the listening descriptor is registered with: readable,
/// edge-triggered.
pub const LISTENER_INTEREST: u32 = EPOLLET | EPOLLIN;

/// The interest every accepted client is registered with: readable,
/// edge-triggered, hangup and peer-half-close.
pub const CLIENT_INTEREST: u32 = EPOLLIN | EPOLLET | EPOLLHUP | EPOLLRDHUP;

/// How many bytes one read call may consume per readiness event.
pub const READ_BUFFER_SIZE: usize = 1024;

/// How many readiness events one wait call may return.
pub const MAX_EVENTS: usize = 1024;

/// A peer's IPv4 address (as one big-endian number) and port.
#[derive(Clone, Copy, PartialEq, Eq, Structural, Debug)]
pub struct PeerAddr {
    pub ip: u32,
    pub port: u16,
}

/// One readiness event: the descriptor the kernel's tag recovers, and the
/// conditions observed on it.
#[derive(Clone, Copy, PartialEq, Eq, Structural, Debug)]
pub struct Event {
    pub fd: i32,
    pub flags: EventFlags,
}

/// One accepted client, as the table holds it: the descriptor (also the
/// table key) and the peer's address. The underlying byte-stream handle
/// stays with the I/O layer, under the same descriptor.
#[derive(Clone, Copy, PartialEq, Eq, Structural, Debug)]
pub struct Connection {
    pub fd: i32,
    pub peer: PeerAddr,
}

/// A lifecycle notification the reactor emits as an observable effect.
#[derive(Clone, Copy, PartialEq, Eq, Structural, Debug)]
pub enum Notification {
    /// A client connected and is now tracked.
    Established { fd: i32, peer: PeerAddr },
    /// A client's connection was torn down and is no longer tracked.
    Closed { fd: i32, peer: PeerAddr },
}

/// A defect the reactor treats as fatal: the loop's bookkeeping and the
/// events it is handed no longer agree.
#[derive(Clone, Copy, PartialEq, Eq, Structural, Debug)]
pub enum ReactorError {
    /// An event named a client descriptor that the table does not hold.
    UnknownDescriptor { fd: i32 },
    /// An accepted descriptor is already tracked, or is the listener.
    DuplicateDescriptor { fd: i32 },
}

/// What the I/O layer must do for one event.
#[derive(Clone, Copy, PartialEq, Eq, Structural, Debug)]
pub enum Decision {
    /// The listening descriptor is ready: try to accept one pending
    /// connection, without blocking; nothing pending is a no-op.
    Accept,
    /// A client event. `read`, when present, names the peer to read from
    /// with exactly one bounded read; `closed`, when present, says the
    /// connection was just torn down and whom to notify. When both are
    /// present the read comes first.
    Service { read: Option<PeerAddr>, closed: Option<PeerAddr> },
}

/// Whether observed conditions call for a read: the readable bit is set.
pub open spec fn wants_read(flags: EventFlags) -> bool {
    has_bits(flags.bits, EPOLLIN)
}

/// Whether observed conditions call for teardown: a hangup or a
/// peer-half-close is set.
pub open spec fn wants_close(flags: EventFlags) -> bool {
    has_bits(flags.bits, EPOLLHUP) || has_bits(flags.bits, EPOLLRDHUP)
}

/// Decodes one wait batch as the kernel reports it: each raw pair gives
/// the descriptor recovered from the registration tag and the observed
/// pattern truncated to the documented bits.
pub fn decode_events(raw: &Vec<(i32, u32)>) -> (r: Vec<Event>)
    ensures
        r@.len() == raw@.len(),
        forall|i: int|
            0 <= i < raw@.len() ==> r@[i] == (Event {
                fd: raw@[i].0,
                flags: EventFlags { bits: raw@[i].1 & ALL_EVENT_BITS },
            }),
{
    let mut out: Vec<Event> = Vec::new();
    let mut idx: usize = 0;
    while idx < raw.len()
        invariant
            idx <= raw@.len(),
            out@.len() == idx,
            forall|i: int|
                0 <= i < idx ==> out@[i] == (Event {
                    fd: raw@[i].0,
                    flags: EventFlags { bits: raw@[i].1 & ALL_EVENT_BITS },
                }),
        decreases raw@.len() - idx,
    {
        let (fd, bits) = raw[idx];
        out.push(Event { fd, flags: EventFlags::from_bits_truncate(bits) });
        idx = idx + 1;
    }
    out
}

/// The reactor's state: the listening descriptor, the mirror of the
/// kernel's interest registry, and the connection table.
pub struct Reactor {
    listen_fd: i32,
    registry: InterestRegistry,
    table: HashMap<i32, Connection>,
}

impl Reactor {
    /// The listening descriptor.
    pub closed spec fn spec_listen_fd(&self) -> i32 {
        self.listen_fd
    }

    /// The registry mirror: registered descriptor to requested bits.
    pub closed spec fn registered(&self) -> Map<i32, u32> {
        self.registry@
    }

    /// The connection table: descriptor to tracked connection.
    pub closed spec fn connections(&self) -> Map<i32, Connection> {
        self.table@
    }

    /// Well-formedness: the listener is registered, the table's keys are
    /// exactly the registered descriptors with the listener excluded, and
    /// each entry records its own key.
    pub open spec fn wf(&self) -> bool {
        &&& self.registered().contains_key(self.spec_listen_fd())
        &&& self.connections().dom() == self.registered().dom().remove(self.spec_listen_fd())
        &&& forall|fd: i32|
            self.connections().contains_key(fd) ==> (#[trigger] self.connections()[fd]).fd == fd
    }

    /// A fresh reactor for one listening descriptor: the listener is
    /// registered with [`LISTENER_INTEREST`], and no client is tracked.
    pub fn new(listen_fd: i32) -> (r: Reactor)
        ensures
            r.wf(),
            r.spec_listen_fd() == listen_fd,
            r.connections() == Map::<i32, Connection>::empty(),
            r.registered() == Map::<i32, u32>::empty().insert(listen_fd, LISTENER_INTEREST),
    {
        proof {
            assert(LISTENER_INTEREST & EPOLLEXCLUSIVE != EPOLLEXCLUSIVE) by (bit_vector);
            assert(add_bits_valid(LISTENER_INTEREST));
        }
        let mut registry = InterestRegistry::new();
        // The bits are valid for an add and the registry is fresh, so the
        // add cannot be rejected.
        let _ = registry.add(listen_fd, LISTENER_INTEREST);
        let table: HashMap<i32, Connection> = HashMap::new();
        let r = Reactor { listen_fd, registry, table };
        proof {
            assert(r.connections().dom() =~= r.registered().dom().remove(listen_fd));
        }
        r
    }

    /// The listening descriptor, as the loop compares events against it.
    pub fn listen_fd(&self) -> (r: i32)
        ensures
            r == self.spec_listen_fd(),
    {
        self.listen_fd
    }

    /// Whether `fd` is a tracked client.
    pub fn is_tracked(&self, fd: i32) -> (r: bool)
        ensures
            r == self.connections().contains_key(fd),
    {
        self.table.contains_key(&fd)
    }

    /// The tracked connection for `fd`, if any.
    pub fn lookup(&self, fd: i32) -> (r: Option<Connection>)
        ensures
            r == if self.connections().contains_key(fd) {
                Some(self.connections()[fd])
            } else {
                None::<Connection>
            },
    {
        match self.table.get(&fd) {
            Some(conn) => Some(*conn),
            None => None,
        }
    }

    /// How many clients are tracked.
    pub fn connection_count(&self) -> (r: usize)
        ensures
            r == self.connections().len(),
    {
        self.table.len()
    }

    /// The condition bits `fd` is registered for in the registry mirror.
    pub fn interest_of(&self, fd: i32) -> (r: Option<u32>)
        ensures
            r == if self.registered().contains_key(fd) {
                Some(self.registered()[fd])
            } else {
                None::<u32>
            },
    {
        self.registry.interest_of(fd)
    }

    /// Tracks one newly accepted client: registers `fd` with
    /// [`CLIENT_INTEREST`] and inserts it into the table, both together.
    /// Fails, changing nothing, exactly when `fd` is the listener or is
    /// already tracked; success returns the established notification.
    pub fn handle_accepted(&mut self, fd: i32, peer: PeerAddr) -> (r: Result<
        Notification,
        ReactorError,
    >)
        requires
            old(self).wf(),
        ensures
            final(self).wf(),
            final(self).spec_listen_fd() == old(self).spec_listen_fd(),
            if fd != old(self).spec_listen_fd() && !old(self).connections().contains_key(fd) {
                &&& r == Ok::<Notification, ReactorError>(Notification::Established { fd, peer })
                &&& final(self).connections() == old(self).connections().insert(
                    fd,
                    (Connection { fd, peer }),
                )
                &&& final(self).registered() == old(self).registered().insert(fd, CLIENT_INTEREST)
            } else {
                &&& r == Err::<Notification, ReactorError>(ReactorError::DuplicateDescriptor { fd })
                &&& final(self).connections() == old(self).connections()
                &&& final(self).registered() == old(self).registered()
            },
    {
        if fd == self.listen_fd {
            return Err(ReactorError::DuplicateDescriptor { fd });
        }
        proof {
            assert(CLIENT_INTEREST & EPOLLEXCLUSIVE != EPOLLEXCLUSIVE) by (bit_vector);
            assert(add_bits_valid(CLIENT_INTEREST));
        }
        match self.registry.add(fd, CLIENT_INTEREST) {
            Ok(_) => {
                self.table.insert(fd, Connection { fd, peer });
                proof {
                    assert(self.connections().dom() =~= self.registered().dom().remove(
                        self.spec_listen_fd(),
                    ));
                }
                Ok(Notification::Established { fd, peer })
            },
            Err(_) => Err(ReactorError::DuplicateDescriptor { fd }),
        }
    }

    /// Decides one readiness event, in the loop's fixed order: an event on
    /// the listener asks for an accept; otherwise a set readable bit asks
    /// for one bounded read, and a set hangup or peer-half-close bit tears
    /// the connection down (table and registry together) and asks for the
    /// closed notification — the read, when both are set, first. A read or
    /// teardown demand on an untracked descriptor is the fatal lock-step
    /// defect; an event with none of those bits changes and demands
    /// nothing.
    pub fn handle_event(&mut self, ev: Event) -> (r: Result<Decision, ReactorError>)
        requires
            old(self).wf(),
        ensures
            final(self).wf(),
            final(self).spec_listen_fd() == old(self).spec_listen_fd(),
            ev.fd == old(self).spec_listen_fd() ==> {
                &&& r == Ok::<Decision, ReactorError>(Decision::Accept)
                &&& final(self).connections() == old(self).connections()
                &&& final(self).registered() == old(self).registered()
            },
            ev.fd != old(self).spec_listen_fd() ==> {
                if (wants_read(ev.flags) || wants_close(ev.flags)) && !old(
                    self,
                ).connections().contains_key(ev.fd) {
                    &&& r == Err::<Decision, ReactorError>(ReactorError::UnknownDescriptor {
                        fd: ev.fd,
                    })
                    &&& final(self).connections() == old(self).connections()
                    &&& final(self).registered() == old(self).registered()
                } else {
                    let peer = old(self).connections()[ev.fd].peer;
                    &&& r == Ok::<Decision, ReactorError>(Decision::Service {
                        read: if wants_read(ev.flags) {
                            Some(peer)
                        } else {
                            None
                        },
                        closed: if wants_close(ev.flags) {
                            Some(peer)
                        } else {
                            None
                        },
                    })
                    &&& if wants_close(ev.flags) {
                        &&& final(self).connections() == old(self).connections().remove(ev.fd)
                        &&& final(self).registered() == old(self).registered().remove(ev.fd)
                    } else {
                        &&& final(self).connections() == old(self).connections()
                        &&& final(self).registered() == old(self).registered()
                    }
                }
            },
    {
        if ev.fd == self.listen_fd {
            return Ok(Decision::Accept);
        }
        let readable = ev.flags.contains(EventFlags::from_bits(EPOLLIN));
        let hangup = ev.flags.contains(EventFlags::from_bits(EPOLLHUP));
        let peer_closed = ev.flags.contains(EventFlags::from_bits(EPOLLRDHUP));
        let closing = hangup || peer_closed;
        if !readable && !closing {
            return Ok(Decision::Service { read: None, closed: None });
        }
        let peer = match self.table.get(&ev.fd) {
            Some(conn) => conn.peer,
            None => {
                return Err(ReactorError::UnknownDescriptor { fd: ev.fd });
            },
        };
        if closing {
            self.table.remove(&ev.fd);
            // The descriptor is tracked, so by the lock-step invariant it
            // is registered and the delete cannot be rejected.
            let _ = self.registry.delete(ev.fd);
            proof {
                assert(self.connections().dom() =~= self.registered().dom().remove(
                    self.spec_listen_fd(),
                ));
            }
        }
        Ok(
            Decision::Service {
                read: if readable {
                    Some(peer)
                } else {
                    None
                },
                closed: if closing {
                    Some(peer)
                } else {
                    None
                },
            },
        )
    }
}

/// The establishment law: tracking a fresh client — the success case of
/// [`Reactor::handle_accepted`], whose `ensures` is this law's
/// hypothesis — adds exactly one entry: the new descriptor is present
/// with its own peer, and every other descriptor, tracked or not, keeps
/// exactly the entry it had. Two clients accepted in turn therefore get
/// independent entries under distinct descriptors, each with its own
/// unaliased peer.
pub proof fn lemma_establish_adds_exactly_one(
    pre: &Reactor,
    post: &Reactor,
    fd: i32,
    peer: PeerAddr,
)
    requires
        !pre.connections().contains_key(fd),
        post.connections() == pre.connections().insert(fd, (Connection { fd, peer })),
    ensures
        post.connections().contains_key(fd),
        post.connections()[fd] == (Connection { fd, peer }),
        forall|other: i32|
            other != fd ==> post.connections().contains_key(other)
                == pre.connections().contains_key(other),
        forall|other: i32|
            other != fd && pre.connections().contains_key(other) ==> post.connections()[other]
                == pre.connections()[other],
{
}

/// The teardown law: tearing one connection down — the closing case of
/// [`Reactor::handle_event`], whose `ensures` is this law's hypothesis —
/// removes exactly one entry: a later lookup of the departed descriptor
/// finds nothing, and every other descriptor, tracked or not, keeps
/// exactly the entry it had.
pub proof fn lemma_teardown_removes_exactly_one(pre: &Reactor, post: &Reactor, fd: i32)
    requires
        pre.connections().contains_key(fd),
        post.connections() == pre.connections().remove(fd),
    ensures
        !post.connections().contains_key(fd),
        forall|other: i32|
            other != fd ==> post.connections().contains_key(other)
                == pre.connections().contains_key(other),
        forall|other: i32|
            other != fd && pre.connections().contains_key(other) ==> post.connections()[other]
                == pre.connections()[other],
{
}

/// The lock-step law: in every well-formed reactor state — and each
/// operation above both requires and re-establishes well-formedness — the
/// connection table's keys are exactly the descriptors registered with the
/// multiplexer, the listener excluded.
pub proof fn lemma_table_registry_lockstep(r: &Reactor)
    requires
        r.wf(),
    ensures
        r.connections().dom() == r.registered().dom().remove(r.spec_listen_fd()),
{
}

} // verus!
