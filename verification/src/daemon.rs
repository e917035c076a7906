//! Daemon transitions: startup registration and session promotion.
//!
//! The event loop itself blocks on the multiplexer and performs the socket
//! I/O; the decisions it acts on — which resources exist at startup, and
//! whether an accepted connection becomes a session — are made here.

use vstd::prelude::*;

use mio::net::{TcpListener, TcpStream, UdpSocket};

use crate::connections::{
    ConnectionManager, ConnectionType, InterestKind, RegistryError, TriggerMode,
};
use crate::state::{evaluation, KnockResult, PortKnockingState};

verus! {

/// Create the daemon's initial resources: one knock listener per bound
/// datagram socket, then the protected service's listener, every one
/// registered for read readiness, level triggered, under consecutive tokens.
/// A registration failure is fatal: the daemon must abort rather than serve
/// with a listener missing.
pub fn set_up_sockets(
    manager: &mut ConnectionManager,
    knock_listeners: Vec<(UdpSocket, u16)>,
    telnet_listener: TcpListener,
) -> (r: Result<(), RegistryError>)
    requires
        old(manager).wf(),
        old(manager).allocated() + knock_listeners@.len() + 1 <= usize::MAX,
    ensures
        final(manager).wf(),
        r is Ok ==> {
            let base = old(manager).allocated() as int;
            let count = knock_listeners@.len() as int;
            &&& final(manager).allocated() == base + count + 1
            &&& forall|t: usize|
                base <= t < base + count ==> #[trigger] final(manager).table().contains_key(t)
                    && final(manager).table()[t] == ConnectionType::UdpKnockListener(
                    knock_listeners@[t - base].0,
                    knock_listeners@[t - base].1,
                )
            &&& final(manager).table().contains_key((base + count) as usize)
            &&& final(manager).table()[(base + count) as usize]
                == ConnectionType::TcpTelnetListener(telnet_listener)
            &&& forall|t: usize|
                #[trigger] old(manager).table().contains_key(t)
                    ==> final(manager).table().contains_key(t)
                    && final(manager).table()[t] == old(manager).table()[t]
        },
        r matches Err(e) ==> e == RegistryError::Registration,
{
    let ghost m0 = *old(manager);
    let ghost ks = knock_listeners@;
    let mut remaining = knock_listeners;
    while remaining.len() > 0
        invariant
            manager.wf(),
            remaining@.len() <= ks.len(),
            remaining@ == ks.subrange(ks.len() - remaining@.len(), ks.len() as int),
            manager.allocated() == m0.allocated() + ks.len() - remaining@.len(),
            m0.allocated() + ks.len() + 1 <= usize::MAX,
            forall|t: usize|
                #[trigger] m0.table().contains_key(t) ==> manager.table().contains_key(t)
                    && manager.table()[t] == m0.table()[t],
            forall|t: usize|
                m0.allocated() <= t < manager.allocated()
                    ==> #[trigger] manager.table().contains_key(t) && manager.table()[t]
                    == ConnectionType::UdpKnockListener(
                    ks[t - m0.allocated()].0,
                    ks[t - m0.allocated()].1,
                ),
        decreases remaining@.len(),
    {
        let ghost done = ks.len() - remaining@.len();
        let ghost mb = *manager;
        let (socket, port) = remaining.remove(0);
        proof {
            assert(ks[done as int] == (socket, port));
            assert(remaining@ =~= ks.subrange(ks.len() - remaining@.len(), ks.len() as int));
        }
        let token = manager.create_token();
        let added = manager.add_connection(
            token,
            ConnectionType::UdpKnockListener(socket, port),
            InterestKind::Readable,
            TriggerMode::Level,
        );
        match added {
            Ok(()) => {
                proof {
                    assert forall|t: usize|
                        m0.allocated() <= t < manager.allocated() implies #[trigger] manager.table(
                    ).contains_key(t) && manager.table()[t] == ConnectionType::UdpKnockListener(
                        ks[t - m0.allocated()].0,
                        ks[t - m0.allocated()].1,
                    ) by {
                        if t < token {
                            assert(mb.table().contains_key(t) && mb.table()[t]
                                == ConnectionType::UdpKnockListener(
                                ks[t - m0.allocated()].0,
                                ks[t - m0.allocated()].1,
                            ));
                        } else {
                            assert(t == token && token - m0.allocated() == done);
                        }
                    }
                }
            },
            Err(e) => {
                return Err(e);
            },
        }
    }
    let ghost m1 = *manager;
    let token = manager.create_token();
    let added = manager.add_connection(
        token,
        ConnectionType::TcpTelnetListener(telnet_listener),
        InterestKind::Readable,
        TriggerMode::Level,
    );
    match added {
        Ok(()) => {
            proof {
                let base = m0.allocated() as int;
                let count = ks.len() as int;
                assert(token == base + count);
                assert forall|t: usize| base <= t < base + count implies #[trigger] manager.table(
                ).contains_key(t) && manager.table()[t] == ConnectionType::UdpKnockListener(
                    ks[t - base].0,
                    ks[t - base].1,
                ) by {
                    assert(m1.table().contains_key(t) && m1.table()[t]
                        == ConnectionType::UdpKnockListener(ks[t - base].0, ks[t - base].1));
                    assert(t != token);
                }
                assert forall|t: usize| #[trigger] m0.table().contains_key(t) implies manager.table().contains_key(t)
                    && manager.table()[t] == m0.table()[t] by {
                    assert(m1.table().contains_key(t) && m1.table()[t] == m0.table()[t]);
                    assert(t < m0.allocated());
                    assert(t != token);
                }
            }
            Ok(())
        },
        Err(e) => Err(e),
    }
}

/// Decide an accepted connection's fate and carry it out. When the client's
/// recorded knocks match the policy, the stream is registered as a single-use
/// session — write readiness, one-shot — and the client's record is reset;
/// `Ok(true)` reports the promotion. Otherwise nothing is registered: the
/// stream is dropped on return, which closes it with nothing sent — the
/// silent rejection — and `Ok(false)` reports it. A registration failure for
/// an authorized client is fatal and leaves both the table and the knock
/// records unchanged.
pub fn promote_session(
    manager: &mut ConnectionManager,
    state: &mut PortKnockingState,
    stream: TcpStream,
    srcaddr: u128,
) -> (r: Result<bool, RegistryError>)
    requires
        old(manager).wf(),
        old(state).wf(),
        old(manager).allocated() < usize::MAX,
    ensures
        final(manager).wf(),
        final(state).wf(),
        final(state).policy() == old(state).policy(),
        r == Ok::<bool, RegistryError>(true) ==> {
            &&& evaluation(old(state).records(), old(state).policy(), srcaddr)
                == KnockResult::Success
            &&& final(state).records() == old(state).records().remove(srcaddr)
            &&& final(manager).table() == old(manager).table().insert(
                old(manager).allocated(),
                ConnectionType::TcpTelnetSession(stream),
            )
            &&& final(manager).allocated() == old(manager).allocated() + 1
        },
        r == Ok::<bool, RegistryError>(false) ==> {
            &&& evaluation(old(state).records(), old(state).policy(), srcaddr)
                != KnockResult::Success
            &&& final(state).records() == old(state).records()
            &&& final(manager).table() == old(manager).table()
            &&& final(manager).allocated() == old(manager).allocated()
        },
        r matches Err(e) ==> {
            &&& e == RegistryError::Registration
            &&& evaluation(old(state).records(), old(state).policy(), srcaddr)
                == KnockResult::Success
            &&& final(state).records() == old(state).records()
            &&& final(manager).table() == old(manager).table()
            &&& final(manager).allocated() == old(manager).allocated() + 1
        },
{
    let decision = state.check(srcaddr);
    match decision {
        KnockResult::Success => {
            let token = manager.create_token();
            let added = manager.add_connection(
                token,
                ConnectionType::TcpTelnetSession(stream),
                InterestKind::Writable,
                TriggerMode::OneShot,
            );
            match added {
                Ok(()) => {
                    state.reset(srcaddr);
                    Ok(true)
                },
                Err(e) => Err(e),
            }
        },
        _ => Ok(false),
    }
}

} // verus!
