//! The mailbox of the connection actor: a bounded queue of commands, of
//! which at most one is with the hypervisor at any time.

use vstd::prelude::*;
use crate::virt::{CommandView, ErrorView, VirtCommand, VirtError};

verus! {

/// How many commands can wait in the mailbox.
pub const QUEUE_CAPACITY: usize = 2;

/// The start or the end of a call into the hypervisor.
pub enum Mark {
    Begin,
    End,
}

/// The mailbox and its history.
pub struct Mailbox {
    /// Every command that was accepted, in the order of acceptance.
    pub accepted: Seq<CommandView>,
    /// The commands that wait.
    pub pending: Seq<CommandView>,
    /// The commands that were handed to the hypervisor, in that order.
    pub calls: Seq<CommandView>,
    /// Whether a command is with the hypervisor.
    pub running: bool,
    /// Whether commands are accepted.
    pub open: bool,
    /// The starts and ends of the calls into the hypervisor, in time.
    pub marks: Seq<Mark>,
}

/// An empty mailbox that accepts commands.
pub open spec fn initial() -> Mailbox {
    Mailbox {
        accepted: Seq::empty(),
        pending: Seq::empty(),
        calls: Seq::empty(),
        running: false,
        open: true,
        marks: Seq::empty(),
    }
}

/// Whether a command can be accepted.
pub open spec fn accepts(m: Mailbox) -> bool {
    m.open && m.pending.len() < QUEUE_CAPACITY
}

/// The mailbox after a caller submitted `c`: it waits behind the others
/// if it was accepted.
pub open spec fn submitted(m: Mailbox, c: CommandView) -> Mailbox {
    if accepts(m) {
        Mailbox { accepted: m.accepted.push(c), pending: m.pending.push(c), ..m }
    } else {
        m
    }
}

/// Whether the actor can take a command.
pub open spec fn ready(m: Mailbox) -> bool {
    !m.running && m.pending.len() > 0
}

/// The mailbox after the actor asked for a command: it takes the one
/// that waited longest, unless one is with the hypervisor already.
pub open spec fn begun(m: Mailbox) -> Mailbox {
    if ready(m) {
        Mailbox {
            pending: m.pending.drop_first(),
            calls: m.calls.push(m.pending[0]),
            running: true,
            marks: m.marks.push(Mark::Begin),
            ..m
        }
    } else {
        m
    }
}

/// The mailbox after the hypervisor answered.
pub open spec fn finished(m: Mailbox) -> Mailbox {
    if m.running {
        Mailbox { running: false, marks: m.marks.push(Mark::End), ..m }
    } else {
        m
    }
}

/// The mailbox after its owner closed it.
pub open spec fn closed(m: Mailbox) -> Mailbox {
    Mailbox { open: false, ..m }
}

/// Whether the actor has stopped: the mailbox is closed and drained.
pub open spec fn stopped(m: Mailbox) -> bool {
    !m.open && !m.running && m.pending.len() == 0
}

/// What can happen to a mailbox.
pub enum Event {
    Submit(CommandView),
    Begin,
    Finish,
    Close,
}

/// The mailbox after an event.
pub open spec fn after(m: Mailbox, e: Event) -> Mailbox {
    match e {
        Event::Submit(c) => submitted(m, c),
        Event::Begin => begun(m),
        Event::Finish => finished(m),
        Event::Close => closed(m),
    }
}

/// The mailbox after a sequence of events, starting empty.
pub open spec fn history(events: Seq<Event>) -> Mailbox
    decreases events.len(),
{
    if events.len() == 0 {
        initial()
    } else {
        after(history(events.drop_last()), events.last())
    }
}

/// Calls into the hypervisor do not overlap: every call ends before the
/// next begins.
pub open spec fn alternating(marks: Seq<Mark>) -> bool {
    forall|i: int| 0 <= i < marks.len() ==> ((#[trigger] marks[i]) is Begin <==> i % 2 == 0)
}

/// The commands reach the hypervisor in the order in which they were
/// accepted, none is skipped or repeated, and at most one is with it at
/// any time.
pub open spec fn serialized(m: Mailbox) -> bool {
    &&& m.calls + m.pending == m.accepted
    &&& m.pending.len() <= QUEUE_CAPACITY
    &&& alternating(m.marks)
    &&& m.marks.len() == 2 * m.calls.len() - if m.running {
        1int
    } else {
        0int
    }
    &&& m.running ==> m.calls.len() > 0
}

/// An event keeps the mailbox serialized.
pub proof fn lemma_event_serializes(m: Mailbox, e: Event)
    requires
        serialized(m),
    ensures
        serialized(after(m, e)),
{
    let n = after(m, e);
    match e {
        Event::Submit(c) => {
            if accepts(m) {
                assert(n.calls + n.pending =~= (m.calls + m.pending).push(c));
            }
        },
        Event::Begin => {
            if ready(m) {
                assert(n.calls + n.pending =~= m.calls + m.pending);
            }
        },
        Event::Finish => {},
        Event::Close => {},
    }
}

/// However submissions by any number of callers interleave with the
/// actor's work, the hypervisor is called with the accepted commands in
/// the order of their acceptance, so each caller's commands in the order
/// in which that caller submitted them, and no two calls overlap.
pub proof fn lemma_actor_serializes(events: Seq<Event>)
    ensures
        serialized(history(events)),
        history(events).calls == history(events).accepted.take(history(events).calls.len() as int),
    decreases events.len(),
{
    if events.len() > 0 {
        lemma_actor_serializes(events.drop_last());
        lemma_event_serializes(history(events.drop_last()), events.last());
    }
    let m = history(events);
    assert(m.calls =~= (m.calls + m.pending).take(m.calls.len() as int));
}

/// Once the actor has stopped it stays stopped, and nothing is accepted
/// or handed out any more.
pub proof fn lemma_stopped_is_final(m: Mailbox, e: Event)
    requires
        stopped(m),
    ensures
        after(m, e) == m,
        stopped(after(m, e)),
{
}

/// The values of a sequence of commands.
pub open spec fn command_views(commands: Seq<VirtCommand>) -> Seq<CommandView> {
    commands.map_values(|c: VirtCommand| c@)
}

/// Why a command was not accepted.
#[derive(Clone, Copy, Debug, PartialEq, Eq, Structural)]
pub enum Refusal {
    /// The queue is full: the caller has to wait.
    Full,
    /// The actor is closed: the transport is gone.
    Closed,
}

/// The error that a refusal amounts to: a closed mailbox means that the
/// transport is gone; a full one is no error, the caller waits.
pub open spec fn refusal_error(refusal: Refusal) -> Option<ErrorView> {
    match refusal {
        Refusal::Full => None,
        Refusal::Closed => Some(ErrorView::TransportClosed),
    }
}

impl Refusal {
    /// The error that this refusal amounts to.
    pub fn error(self) -> (e: Option<VirtError>)
        ensures
            (match e {
                Some(e) => Some(e@),
                None => None,
            }) == refusal_error(self),
    {
        match self {
            Refusal::Full => None,
            Refusal::Closed => Some(VirtError::TransportClosed),
        }
    }
}

/// The state of the actor.
#[derive(Clone, Copy, Debug, PartialEq, Eq, Structural)]
pub enum ActorState {
    Running,
    Stopped,
}

/// The mailbox of the connection actor.
pub struct VirtConnect {
    queue: Vec<VirtCommand>,
    running: bool,
    open: bool,
    accepted: Ghost<Seq<CommandView>>,
    calls: Ghost<Seq<CommandView>>,
    marks: Ghost<Seq<Mark>>,
}

impl View for VirtConnect {
    type V = Mailbox;

    closed spec fn view(&self) -> Mailbox {
        Mailbox {
            accepted: self.accepted@,
            pending: command_views(self.queue@),
            calls: self.calls@,
            running: self.running,
            open: self.open,
            marks: self.marks@,
        }
    }
}

impl VirtConnect {
    /// Whether the mailbox is one that `new` and the methods produce.
    pub open spec fn wf(&self) -> bool {
        serialized(self@)
    }

    /// An empty mailbox that accepts commands.
    pub fn new() -> (connect: Self)
        ensures
            connect@ == initial(),
            connect.wf(),
    {
        let connect = VirtConnect {
            queue: Vec::new(),
            running: false,
            open: true,
            accepted: Ghost(Seq::empty()),
            calls: Ghost(Seq::empty()),
            marks: Ghost(Seq::empty()),
        };
        assert(command_views(connect.queue@) =~= Seq::<CommandView>::empty());
        assert(connect@.calls + connect@.pending =~= connect@.accepted);
        connect
    }

    /// Submits a command. It is queued if the mailbox is open and has
    /// room; else it comes back with the reason.
    pub fn submit(&mut self, command: VirtCommand) -> (refused: Result<(), (Refusal, VirtCommand)>)
        requires
            old(self).wf(),
        ensures
            final(self).wf(),
            final(self)@ == submitted(old(self)@, command@),
            match refused {
                Ok(()) => accepts(old(self)@),
                Err((Refusal::Closed, back)) => !old(self)@.open && back == command,
                Err((Refusal::Full, back)) => old(self)@.open && !accepts(old(self)@) && back
                    == command,
            },
    {
        if !self.open {
            return Err((Refusal::Closed, command));
        }
        if self.queue.len() >= QUEUE_CAPACITY {
            return Err((Refusal::Full, command));
        }
        proof {
            lemma_event_serializes(self@, Event::Submit(command@));
        }
        let ghost before = command_views(self.queue@);
        self.accepted = Ghost(self.accepted@.push(command@));
        self.queue.push(command);
        assert(command_views(self.queue@) =~= before.push(command@));
        Ok(())
    }

    /// Takes the command that waited longest, unless one is with the
    /// hypervisor or none waits.
    pub fn take(&mut self) -> (command: Option<VirtCommand>)
        requires
            old(self).wf(),
        ensures
            final(self).wf(),
            final(self)@ == begun(old(self)@),
            match command {
                Some(c) => ready(old(self)@) && c@ == old(self)@.pending[0],
                None => !ready(old(self)@),
            },
    {
        if self.running || self.queue.len() == 0 {
            return None;
        }
        proof {
            lemma_event_serializes(self@, Event::Begin);
        }
        let ghost before = command_views(self.queue@);
        let command = self.queue.remove(0);
        assert(command_views(self.queue@) =~= before.drop_first());
        self.calls = Ghost(self.calls@.push(command@));
        self.marks = Ghost(self.marks@.push(Mark::Begin));
        self.running = true;
        Some(command)
    }

    /// Notes that the hypervisor has answered the command that was taken.
    pub fn finish(&mut self)
        requires
            old(self).wf(),
        ensures
            final(self).wf(),
            final(self)@ == finished(old(self)@),
    {
        if self.running {
            proof {
                lemma_event_serializes(self@, Event::Finish);
            }
            self.marks = Ghost(self.marks@.push(Mark::End));
            self.running = false;
        }
    }

    /// Closes the mailbox: nothing more is accepted. What waits is still
    /// handed out.
    pub fn close(&mut self)
        requires
            old(self).wf(),
        ensures
            final(self).wf(),
            final(self)@ == closed(old(self)@),
    {
        self.open = false;
    }

    /// The state of the actor: it has stopped once the mailbox is closed
    /// and drained, and not before.
    pub fn state(&self) -> (s: ActorState)
        ensures
            s == ActorState::Stopped <==> stopped(self@),
    {
        if !self.open && !self.running && self.queue.len() == 0 {
            ActorState::Stopped
        } else {
            ActorState::Running
        }
    }

    /// How many commands wait.
    pub fn waiting(&self) -> (n: usize)
        ensures
            n == self@.pending.len(),
    {
        self.queue.len()
    }
}

} // verus!
