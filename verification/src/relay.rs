//! The console relay: one session between a client that sends and
//! receives messages and a socket of the host.

use vstd::prelude::*;
use vstd::string::*;
use crate::text::{decimal, decimal_text};

verus! {

/// The size of the buffer that the socket is read into.
pub const WINDOW: usize = 4096;

/// What happened on one side of a session.
#[derive(Clone, Debug, PartialEq, Eq)]
pub enum RelayEvent {
    /// The client sent a message with this payload.
    ClientMessage(Vec<u8>),
    /// The client closed its side, or its side failed.
    ClientGone,
    /// The socket was read and gave these bytes; none means that its
    /// side was closed.
    SocketData(Vec<u8>),
    /// The socket failed.
    SocketFailed,
}

/// What the session does next.
#[derive(Clone, Debug, PartialEq, Eq)]
pub enum RelayAction {
    /// Write these bytes to the socket.
    ToSocket(Vec<u8>),
    /// Send the client a message with this payload.
    ToClient(Vec<u8>),
    /// Close both sides.
    Teardown,
}

/// The mathematical value of a [`RelayEvent`].
pub enum EventView {
    ClientMessage(Seq<u8>),
    ClientGone,
    SocketData(Seq<u8>),
    SocketFailed,
}

/// The mathematical value of a [`RelayAction`].
pub enum ActionView {
    ToSocket(Seq<u8>),
    ToClient(Seq<u8>),
    Teardown,
}

impl View for RelayEvent {
    type V = EventView;

    open spec fn view(&self) -> EventView {
        match self {
            RelayEvent::ClientMessage(bytes) => EventView::ClientMessage(bytes@),
            RelayEvent::ClientGone => EventView::ClientGone,
            RelayEvent::SocketData(bytes) => EventView::SocketData(bytes@),
            RelayEvent::SocketFailed => EventView::SocketFailed,
        }
    }
}

impl View for RelayAction {
    type V = ActionView;

    open spec fn view(&self) -> ActionView {
        match self {
            RelayAction::ToSocket(bytes) => ActionView::ToSocket(bytes@),
            RelayAction::ToClient(bytes) => ActionView::ToClient(bytes@),
            RelayAction::Teardown => ActionView::Teardown,
        }
    }
}

/// Whether an event ends the session: a side is gone or has failed, or
/// the socket was read and gave nothing.
pub open spec fn ends(e: EventView) -> bool {
    match e {
        EventView::ClientMessage(_) => false,
        EventView::ClientGone => true,
        EventView::SocketData(bytes) => bytes.len() == 0,
        EventView::SocketFailed => true,
    }
}

/// What a session that is open does on an event: a payload goes to the
/// other side whole and unchanged, and an event that ends the session
/// tears it down.
pub open spec fn relayed(e: EventView) -> ActionView {
    match e {
        EventView::ClientMessage(bytes) => ActionView::ToSocket(bytes),
        EventView::SocketData(bytes) => if bytes.len() == 0 {
            ActionView::Teardown
        } else {
            ActionView::ToClient(bytes)
        },
        _ => ActionView::Teardown,
    }
}

/// Whether a session is open after these events: none of them ended it.
pub open spec fn open_after(events: Seq<EventView>) -> bool {
    forall|i: int| 0 <= i < events.len() ==> !ends(#[trigger] events[i])
}

/// What a session does on the last of these events.
pub open spec fn last_action(events: Seq<EventView>) -> ActionView
    recommends
        events.len() > 0,
{
    if open_after(events.drop_last()) {
        relayed(events.last())
    } else {
        ActionView::Teardown
    }
}

/// A session of the relay.
#[derive(Debug)]
pub struct Relay {
    open: bool,
}

impl Relay {
    /// Whether the session is open.
    pub closed spec fn is_open(&self) -> bool {
        self.open
    }

    /// A session that is open.
    pub fn new() -> (relay: Relay)
        ensures
            relay.is_open(),
    {
        Relay { open: true }
    }

    /// Whether the session is open.
    pub fn active(&self) -> (open: bool)
        ensures
            open == self.is_open(),
    {
        self.open
    }

    /// What the session does on an event. The event that ends the
    /// session is answered by the teardown of both sides at once, and so
    /// is every event after it.
    pub fn step(&mut self, event: RelayEvent) -> (action: RelayAction)
        ensures
            final(self).is_open() == (old(self).is_open() && !ends(event@)),
            action@ == if old(self).is_open() {
                relayed(event@)
            } else {
                ActionView::Teardown
            },
    {
        if !self.open {
            return RelayAction::Teardown;
        }
        match event {
            RelayEvent::ClientMessage(bytes) => RelayAction::ToSocket(bytes),
            RelayEvent::SocketData(bytes) => if bytes.len() == 0 {
                self.open = false;
                RelayAction::Teardown
            } else {
                RelayAction::ToClient(bytes)
            },
            _ => {
                self.open = false;
                RelayAction::Teardown
            },
        }
    }
}

/// When either side of a session ends, both sides are torn down in the
/// same step: the action on the event that ends the session is the
/// teardown, and so is the action on every event after it.
pub proof fn lemma_teardown(events: Seq<EventView>, at: int)
    requires
        0 <= at < events.len(),
        ends(events[at]),
    ensures
        last_action(events.take(at + 1)) is Teardown,
        forall|n: int| at < n <= events.len() ==> last_action(#[trigger] events.take(n)) is Teardown,
        !open_after(events),
{
    assert(events.take(at + 1).last() == events[at]);
    assert forall|n: int| at < n <= events.len() implies last_action(
        #[trigger] events.take(n),
    ) is Teardown by {
        let prefix = events.take(n);
        if n == at + 1 {
            assert(prefix.last() == events[at]);
        } else {
            assert(prefix.drop_last()[at] == events[at]);
        }
    }
}

/// While no event has ended the session, every payload is passed on whole.
pub proof fn lemma_passes_on(events: Seq<EventView>)
    requires
        events.len() > 0,
        open_after(events),
    ensures
        last_action(events) == relayed(events.last()),
        events.last() matches EventView::ClientMessage(bytes) ==> last_action(events)
            == ActionView::ToSocket(bytes),
        events.last() matches EventView::SocketData(bytes) ==> last_action(events)
            == ActionView::ToClient(bytes),
{
    assert forall|i: int| 0 <= i < events.drop_last().len() implies !ends(
        #[trigger] events.drop_last()[i],
    ) by {
        assert(events.drop_last()[i] == events[i]);
    }
    assert(!ends(events.last()));
}

/// The address of the socket of a console: the port on the local host.
pub open spec fn address_text(port: u16) -> Seq<char> {
    "127.0.0.1:"@ + decimal_text(port as nat)
}

/// The address of the socket of a console.
pub fn target_address(port: u16) -> (address: String)
    ensures
        address@ == address_text(port),
{
    let mut address = String::from_str("127.0.0.1:");
    let digits = decimal(port as u128);
    address.append(digits.as_str());
    address
}

} // verus!
