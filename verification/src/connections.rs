//! The resource registry (connection manager).
//!
//! The registry is the sole owner of every live socket. Each resource is
//! stored under an opaque token, registered with the readiness multiplexer
//! under that token when it is added, and deregistered when it is removed.
//! Tokens are allocated monotonically and never reused within a process
//! lifetime.

use std::collections::HashMap;
use vstd::prelude::*;

use mio::net::{TcpListener, TcpStream, UdpSocket};
use mio::Poll;

verus! {

broadcast use vstd::std_specs::hash::group_hash_axioms;

/// mio's readiness selector. The registry owns one and registers every
/// resource against it.
#[verifier::external_type_specification]
#[verifier::external_body]
pub struct ExPoll(Poll);

/// A bound datagram socket of mio, used as a knock listener.
#[verifier::external_type_specification]
#[verifier::external_body]
pub struct ExUdpSocket(UdpSocket);

/// A bound stream-accepting socket of mio, the protected service's listener.
#[verifier::external_type_specification]
#[verifier::external_body]
pub struct ExTcpListener(TcpListener);

/// An accepted stream socket of mio, one authorized client session.
#[verifier::external_type_specification]
#[verifier::external_body]
pub struct ExTcpStream(TcpStream);

/// The error type mio's calls return.
#[verifier::external_type_specification]
#[verifier::external_body]
pub struct ExIoError(std::io::Error);

/// The readiness condition a resource is registered for.
#[derive(Clone, Copy, Debug, PartialEq, Eq, Structural)]
pub enum InterestKind {
    /// The resource can be read from without blocking.
    Readable,
    /// The resource can be written to without blocking.
    Writable,
}

/// How a registration fires: again while the condition holds, once per
/// transition, or once in total until re-armed.
#[derive(Clone, Copy, Debug, PartialEq, Eq, Structural)]
pub enum TriggerMode {
    Level,
    Edge,
    OneShot,
}

/// A multiplexer failure the daemon cannot recover from: the process must
/// abort rather than serve with an unarmed or dangling registration.
#[derive(Debug, PartialEq, Eq, Structural)]
pub enum RegistryError {
    /// The readiness selector itself could not be created.
    PollCreation,
    /// A resource could not be registered with the selector.
    Registration,
    /// A resource could not be deregistered from the selector.
    Deregistration,
}

/// A live resource: the socket itself plus what the daemon needs to know
/// about it. One `UdpKnockListener` exists per monitored port, carrying that
/// port; exactly one `TcpTelnetListener` accepts clients of the protected
/// service; a `TcpTelnetSession` is one authorized client awaiting its single
/// write.
pub enum ConnectionType {
    UdpKnockListener(UdpSocket, u16),
    TcpTelnetListener(TcpListener),
    TcpTelnetSession(TcpStream),
}

/// Relies on mio::Poll::new: creates the OS readiness selector.
#[verifier::external_body]
fn poll_new() -> (r: Result<Poll, std::io::Error>) {
    Poll::new()
}

/// Relies on mio::Poll::register, instantiated at mio::net::UdpSocket: arms
/// readiness notification for the socket under the given token.
#[verifier::external_body]
fn register_udp(
    poll: &Poll,
    socket: &UdpSocket,
    token: usize,
    interest: InterestKind,
    mode: TriggerMode,
) -> (r: Result<(), std::io::Error>) {
    let ready = match interest {
        InterestKind::Readable => mio::Ready::readable(),
        InterestKind::Writable => mio::Ready::writable(),
    };
    let opt = match mode {
        TriggerMode::Level => mio::PollOpt::level(),
        TriggerMode::Edge => mio::PollOpt::edge(),
        TriggerMode::OneShot => mio::PollOpt::oneshot(),
    };
    poll.register(socket, mio::Token(token), ready, opt)
}

/// Relies on mio::Poll::register, instantiated at mio::net::TcpListener.
#[verifier::external_body]
fn register_tcp_listener(
    poll: &Poll,
    socket: &TcpListener,
    token: usize,
    interest: InterestKind,
    mode: TriggerMode,
) -> (r: Result<(), std::io::Error>) {
    let ready = match interest {
        InterestKind::Readable => mio::Ready::readable(),
        InterestKind::Writable => mio::Ready::writable(),
    };
    let opt = match mode {
        TriggerMode::Level => mio::PollOpt::level(),
        TriggerMode::Edge => mio::PollOpt::edge(),
        TriggerMode::OneShot => mio::PollOpt::oneshot(),
    };
    poll.register(socket, mio::Token(token), ready, opt)
}

/// Relies on mio::Poll::register, instantiated at mio::net::TcpStream.
#[verifier::external_body]
fn register_tcp_stream(
    poll: &Poll,
    socket: &TcpStream,
    token: usize,
    interest: InterestKind,
    mode: TriggerMode,
) -> (r: Result<(), std::io::Error>) {
    let ready = match interest {
        InterestKind::Readable => mio::Ready::readable(),
        InterestKind::Writable => mio::Ready::writable(),
    };
    let opt = match mode {
        TriggerMode::Level => mio::PollOpt::level(),
        TriggerMode::Edge => mio::PollOpt::edge(),
        TriggerMode::OneShot => mio::PollOpt::oneshot(),
    };
    poll.register(socket, mio::Token(token), ready, opt)
}

/// Relies on mio::Poll::deregister, instantiated at mio::net::UdpSocket:
/// after it returns Ok, no further events for the socket are produced.
#[verifier::external_body]
fn deregister_udp(poll: &Poll, socket: &UdpSocket) -> (r: Result<(), std::io::Error>) {
    poll.deregister(socket)
}

/// Relies on mio::Poll::deregister, instantiated at mio::net::TcpListener.
#[verifier::external_body]
fn deregister_tcp_listener(poll: &Poll, socket: &TcpListener) -> (r: Result<(), std::io::Error>) {
    poll.deregister(socket)
}

/// Relies on mio::Poll::deregister, instantiated at mio::net::TcpStream.
#[verifier::external_body]
fn deregister_tcp_stream(poll: &Poll, socket: &TcpStream) -> (r: Result<(), std::io::Error>) {
    poll.deregister(socket)
}

/// Sole owner of every live resource, keyed by token, together with the poll
/// instance the resources are registered against. The poll field is public so
/// the event loop can block on it; everything else is mutated only through
/// the registry's own operations.
pub struct ConnectionManager {
    connections: HashMap<usize, ConnectionType>,
    next_token: usize,
    pub poll: Poll,
}

impl ConnectionManager {
    /// The registered resources, by token.
    pub closed spec fn table(&self) -> Map<usize, ConnectionType> {
        self.connections@
    }

    /// How many tokens have been handed out; also the next token's value.
    pub closed spec fn allocated(&self) -> usize {
        self.next_token
    }

    /// The registry's invariant: every stored token was allocated, so a fresh
    /// token never collides with a live resource.
    pub open spec fn wf(&self) -> bool {
        forall|t: usize| #[trigger] self.table().contains_key(t) ==> t < self.allocated()
    }

    /// A fresh registry owning a new readiness selector and no resources.
    /// Fails only when the selector itself cannot be created, which the
    /// daemon treats as fatal.
    pub fn new() -> (r: Result<Self, RegistryError>)
        ensures
            match r {
                Ok(manager) => manager.wf() && manager.table() == Map::<
                    usize,
                    ConnectionType,
                >::empty() && manager.allocated() == 0,
                Err(e) => e == RegistryError::PollCreation,
            },
    {
        match poll_new() {
            Ok(poll) => Ok(ConnectionManager { connections: HashMap::new(), next_token: 0, poll }),
            Err(_) => Err(RegistryError::PollCreation),
        }
    }

    /// Allocate the next token: monotonic, never reused while the process
    /// lives, and distinct from every token in the table.
    pub fn create_token(&mut self) -> (token: usize)
        requires
            old(self).wf(),
            old(self).allocated() < usize::MAX,
        ensures
            final(self).wf(),
            token == old(self).allocated(),
            final(self).allocated() == old(self).allocated() + 1,
            final(self).table() == old(self).table(),
            !final(self).table().contains_key(token),
    {
        let token = self.next_token;
        self.next_token = self.next_token + 1;
        proof {
            assert forall|t: usize| self.table().contains_key(t) implies t < self.allocated() by {
                assert(old(self).table().contains_key(t));
            }
            assert(!self.table().contains_key(token)) by {
                if self.table().contains_key(token) {
                    assert(old(self).table().contains_key(token));
                }
            }
        }
        token
    }

    /// How many tokens this registry has handed out so far.
    pub fn tokens_used(&self) -> (n: usize)
        ensures
            n == self.allocated(),
    {
        self.next_token
    }

    /// Register `connection` with the multiplexer under `token` and store it.
    /// On a registration failure — fatal to the daemon — nothing is stored.
    pub fn add_connection(
        &mut self,
        token: usize,
        connection: ConnectionType,
        interest: InterestKind,
        mode: TriggerMode,
    ) -> (r: Result<(), RegistryError>)
        requires
            old(self).wf(),
            token < old(self).allocated(),
        ensures
            final(self).wf(),
            final(self).allocated() == old(self).allocated(),
            match r {
                Ok(()) => final(self).table() == old(self).table().insert(token, connection),
                Err(e) => final(self).table() == old(self).table() && e
                    == RegistryError::Registration,
            },
    {
        let registered = match &connection {
            ConnectionType::UdpKnockListener(socket, _) => register_udp(
                &self.poll,
                socket,
                token,
                interest,
                mode,
            ),
            ConnectionType::TcpTelnetListener(socket) => register_tcp_listener(
                &self.poll,
                socket,
                token,
                interest,
                mode,
            ),
            ConnectionType::TcpTelnetSession(socket) => register_tcp_stream(
                &self.poll,
                socket,
                token,
                interest,
                mode,
            ),
        };
        match registered {
            Ok(()) => {
                self.connections.insert(token, connection);
                proof {
                    assert forall|t: usize| self.table().contains_key(t) implies t
                        < self.allocated() by {
                        if t != token {
                            assert(old(self).table().contains_key(t));
                        }
                    }
                }
                Ok(())
            },
            Err(_) => Err(RegistryError::Registration),
        }
    }

    /// Look up a resource by token. A miss is not an error: an event may
    /// name a token whose resource was removed earlier in the same batch.
    pub fn get_connection(&self, token: usize) -> (r: Option<&ConnectionType>)
        ensures
            match r {
                Some(connection) => self.table().contains_key(token) && *connection == self.table()[
                    token
                ],
                None => !self.table().contains_key(token),
            },
    {
        self.connections.get(&token)
    }

    /// Deregister the resource stored under `token` from the multiplexer and
    /// drop it, closing its socket. Removing an unknown token is a no-op and
    /// always succeeds; a deregistration failure is fatal to the daemon.
    pub fn remove_connection(&mut self, token: usize) -> (r: Result<(), RegistryError>)
        requires
            old(self).wf(),
        ensures
            final(self).wf(),
            final(self).allocated() == old(self).allocated(),
            final(self).table() == old(self).table().remove(token),
            !old(self).table().contains_key(token) ==> r == Ok::<(), RegistryError>(()),
            r matches Err(e) ==> e == RegistryError::Deregistration,
    {
        let removed = self.connections.remove(&token);
        proof {
            if !old(self).table().contains_key(token) {
                assert(self.table() =~= old(self).table().remove(token));
            }
        }
        match removed {
            Some(connection) => {
                let deregistered = match &connection {
                    ConnectionType::UdpKnockListener(socket, _) => deregister_udp(
                        &self.poll,
                        socket,
                    ),
                    ConnectionType::TcpTelnetListener(socket) => deregister_tcp_listener(
                        &self.poll,
                        socket,
                    ),
                    ConnectionType::TcpTelnetSession(socket) => deregister_tcp_stream(
                        &self.poll,
                        socket,
                    ),
                };
                match deregistered {
                    Ok(()) => Ok(()),
                    Err(_) => Err(RegistryError::Deregistration),
                }
            },
            None => Ok(()),
        }
    }
}

/// Law: a resource added under a token is exactly what a lookup of that token
/// then finds.
pub proof fn lemma_add_then_get(
    table: Map<usize, ConnectionType>,
    token: usize,
    resource: ConnectionType,
)
    ensures
        table.insert(token, resource).contains_key(token),
        table.insert(token, resource)[token] == resource,
{
}

/// Law: after a removal the token finds nothing, and removing a token that
/// was never stored leaves the table exactly as it was.
pub proof fn lemma_remove_then_get(table: Map<usize, ConnectionType>, token: usize)
    ensures
        !table.remove(token).contains_key(token),
        !table.contains_key(token) ==> table.remove(token) == table,
{
    if !table.contains_key(token) {
        assert(table.remove(token) =~= table);
    }
}

} // verus!
