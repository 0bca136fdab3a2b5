use vstd::prelude::*;

use crate::error::SwErlError;
use crate::error::spec_recoverable;
use crate::mailbox::DEFAULT_CAPACITY;
use crate::mailbox::Mailbox;
use crate::mailbox::RecvOutcome;
use crate::mailbox::SendOutcome;

verus! {

/// A process identifier: an opaque string, unique per live process.
pub type ProcessId = String;

/// Where a process stands in its life cycle.
#[derive(Debug)]
pub enum Status {
    /// The run loop is willing to take the next message.
    Running,
    /// The loop ended cleanly: every handle was dropped and the backlog was
    /// drained.
    StoppedOk,
    /// A handler met a non-recoverable error; the process handles nothing
    /// further, though its mailbox keeps accepting up to capacity.
    StoppedErr(SwErlError),
}

/// What one process supplies to its run loop: how a message acts on the
/// private state. A failure is classified by the error taxonomy; the loop
/// decides from it whether the process survives.
pub trait ProcessHandler<M, S>: Sized {
    /// What one invocation promises: how it relates the handler's own
    /// bookkeeping and the process state before and after, the message, and
    /// the failure it reported, if any. The run loop hands this relation on
    /// to its callers.
    spec fn effect(pre: Self, post: Self, s_pre: S, s_post: S, msg: M, err: Option<
        SwErlError,
    >) -> bool;

    fn handle(&mut self, state: &mut S, msg: M) -> (r: Result<(), SwErlError>)
        ensures
            Self::effect(*old(self), *final(self), *old(state), *final(state), msg, handler_err(r)),
    ;
}

/// The failure a handler reported, if any.
pub open spec fn handler_err(r: Result<(), SwErlError>) -> Option<SwErlError> {
    match r {
        Ok(_) => None,
        Err(e) => Some(e),
    }
}

/// The handler went through exactly these messages, in this order: one
/// invocation per message, each linked to the next by the handler's own
/// `effect` relation, carrying the process state from one invocation to the
/// next, with some reported failure or none at each. In particular an empty
/// chain leaves both the handler and the state untouched: the state is never
/// read or changed except through the handler.
pub open spec fn handler_chain<M, S, H: ProcessHandler<M, S>>(
    pre: H,
    post: H,
    s_pre: S,
    s_post: S,
    msgs: Seq<M>,
) -> bool
    decreases msgs.len(),
{
    if msgs.len() == 0 {
        post == pre && s_post == s_pre
    } else {
        exists|mid: H, s_mid: S, err: Option<SwErlError>|
            #[trigger] H::effect(pre, mid, s_pre, s_mid, msgs.first(), err)
                && handler_chain::<M, S, H>(mid, post, s_mid, s_post, msgs.drop_first())
    }
}

/// One more handled message extends a handler chain at its end.
pub proof fn lemma_handler_chain_push<M, S, H: ProcessHandler<M, S>>(
    a: H,
    b: H,
    c: H,
    sa: S,
    sb: S,
    sc: S,
    msgs: Seq<M>,
    m: M,
    err: Option<SwErlError>,
)
    requires
        handler_chain::<M, S, H>(a, b, sa, sb, msgs),
        H::effect(b, c, sb, sc, m, err),
    ensures
        handler_chain::<M, S, H>(a, c, sa, sc, msgs.push(m)),
    decreases msgs.len(),
{
    if msgs.len() == 0 {
        assert(msgs.push(m).first() == m);
        assert(msgs.push(m).drop_first() =~= Seq::<M>::empty());
        assert(H::effect(a, c, sa, sc, msgs.push(m).first(), err));
        assert(handler_chain::<M, S, H>(c, c, sc, sc, msgs.push(m).drop_first()));
    } else {
        let (mid, s_mid, e0) = choose|mid: H, s_mid: S, e0: Option<SwErlError>|
            #[trigger] H::effect(a, mid, sa, s_mid, msgs.first(), e0) && handler_chain::<M, S, H>(
                mid,
                b,
                s_mid,
                sb,
                msgs.drop_first(),
            );
        lemma_handler_chain_push::<M, S, H>(mid, b, c, s_mid, sb, sc, msgs.drop_first(), m, err);
        assert(msgs.push(m).drop_first() =~= msgs.drop_first().push(m));
        assert(msgs.push(m).first() == msgs.first());
        assert(H::effect(a, mid, sa, s_mid, msgs.push(m).first(), e0));
        assert(handler_chain::<M, S, H>(mid, c, s_mid, sc, msgs.push(m).drop_first()));
    }
}

/// The failure that one turn of the run loop reported from its handler, if
/// any; nothing where no message was handled.
pub open spec fn outcome_err(r: StepOutcome) -> Option<SwErlError> {
    match r {
        StepOutcome::Recovered(e) => Some(e),
        StepOutcome::Fatal(e) => Some(e),
        _ => None,
    }
}

/// What one turn of the run loop did.
#[derive(Debug)]
pub enum StepOutcome {
    /// The process had already stopped; nothing was dequeued or handled.
    AlreadyStopped,
    /// Nothing pending, but handles remain: a concurrent loop suspends here.
    Idle,
    /// Nothing pending and no handles remain: the process stopped cleanly.
    Disconnected,
    /// One message was handled without error.
    Handled,
    /// One message was handled; the handler failed recoverably, and the
    /// process keeps running.
    Recovered(SwErlError),
    /// One message was handled; the handler failed non-recoverably, and the
    /// process stopped.
    Fatal(SwErlError),
}

/// The actor: an identifier, exclusively owned private state, and the
/// receiving end of a bounded mailbox, drained strictly one message at a
/// time.
pub struct Process<M, S> {
    pid: ProcessId,
    state: S,
    mailbox: Mailbox<M>,
    status: Status,
}

impl<M, S> Process<M, S> {
    /// The identifier, as a sequence of characters.
    pub closed spec fn pid_view(&self) -> Seq<char> {
        self.pid@
    }

    /// The private state.
    pub closed spec fn state_of(&self) -> S {
        self.state
    }

    /// The life-cycle stage.
    pub closed spec fn status_of(&self) -> Status {
        self.status
    }

    /// The pending messages, oldest first.
    pub closed spec fn backlog(&self) -> Seq<M> {
        self.mailbox@
    }

    /// The mailbox capacity.
    pub closed spec fn cap_of(&self) -> int {
        self.mailbox.cap()
    }

    /// How many sending handles are alive.
    pub closed spec fn sender_count(&self) -> int {
        self.mailbox.sender_count()
    }

    /// Whether the mailbox still accepts messages at all.
    pub closed spec fn receiver_is_open(&self) -> bool {
        self.mailbox.receiver_open()
    }

    /// The backlog fits the capacity; a process that stopped cleanly has
    /// closed its mailbox with nothing left in it; and only then: a running
    /// or fatally-stopped process keeps its receiving end, so its mailbox
    /// still accepts messages up to capacity.
    pub open spec fn wf(&self) -> bool {
        &&& self.backlog().len() <= self.cap_of()
        &&& self.cap_of() >= 1
        &&& self.sender_count() >= 0
        &&& (self.status_of() is StoppedOk ==> self.backlog().len() == 0)
        &&& (self.receiver_is_open() <==> !(self.status_of() is StoppedOk))
        &&& (self.status_of() matches Status::StoppedErr(e) ==> !spec_recoverable(e))
    }

    /// Builds a running process around an identifier, an initial state and
    /// the receiving end of a mailbox.
    pub fn new(pid: ProcessId, initial_state: S, mailbox: Mailbox<M>) -> (r: Self)
        requires
            mailbox.wf(),
            mailbox.receiver_open(),
        ensures
            r.wf(),
            r.pid_view() == pid@,
            r.state_of() == initial_state,
            r.status_of() is Running,
            r.backlog() == mailbox@,
            r.cap_of() == mailbox.cap(),
            r.sender_count() == mailbox.sender_count(),
            r.receiver_is_open() == mailbox.receiver_open(),
    {
        Process { pid, state: initial_state, mailbox, status: Status::Running }
    }

    /// The identifier.
    pub fn pid(&self) -> (r: &String)
        ensures
            r@ == self.pid_view(),
    {
        &self.pid
    }

    /// Whether the run loop still takes messages.
    pub fn is_running(&self) -> (r: bool)
        ensures
            r == (self.status_of() is Running),
    {
        matches!(self.status, Status::Running)
    }

    /// The fatal error that stopped the process, if one did.
    pub fn failure(&self) -> (r: Option<&SwErlError>)
        ensures
            r is Some <==> self.status_of() is StoppedErr,
            r matches Some(e) ==> self.status_of() == Status::StoppedErr(*e),
    {
        match &self.status {
            Status::StoppedErr(e) => Some(e),
            _ => None,
        }
    }

    /// How many messages wait unhandled.
    pub fn backlog_len(&self) -> (r: usize)
        ensures
            r == self.backlog().len(),
    {
        self.mailbox.len()
    }

    /// The mailbox capacity.
    pub fn capacity(&self) -> (r: usize)
        ensures
            r == self.cap_of(),
    {
        self.mailbox.capacity()
    }

    /// Whether the mailbox still accepts messages.
    pub fn mailbox_open(&self) -> (r: bool)
        ensures
            r == self.receiver_is_open(),
    {
        self.mailbox.is_open()
    }

    /// How many sending handles are alive.
    pub fn handle_count(&self) -> (r: usize)
        ensures
            r == self.sender_count(),
    {
        self.mailbox.sender_count_exec()
    }

    /// Offers a message to the mailbox, as a sending handle does. Whether the
    /// process still handles anything plays no part: a stopped process's
    /// mailbox keeps accepting up to capacity, so nothing already enqueued is
    /// ever silently dropped.
    pub fn enqueue(&mut self, m: M) -> (r: SendOutcome)
        requires
            old(self).wf(),
        ensures
            final(self).wf(),
            final(self).pid_view() == old(self).pid_view(),
            final(self).state_of() == old(self).state_of(),
            final(self).status_of() == old(self).status_of(),
            final(self).cap_of() == old(self).cap_of(),
            final(self).sender_count() == old(self).sender_count(),
            final(self).receiver_is_open() == old(self).receiver_is_open(),
            !old(self).receiver_is_open() ==> r == SendOutcome::Closed && final(self).backlog()
                == old(self).backlog(),
            old(self).receiver_is_open() && old(self).backlog().len() < old(self).cap_of() ==> r
                == SendOutcome::Enqueued && final(self).backlog() == old(self).backlog().push(m),
            old(self).receiver_is_open() && old(self).backlog().len() == old(self).cap_of() ==> r
                == SendOutcome::Full && final(self).backlog() == old(self).backlog(),
    {
        self.mailbox.enqueue(m)
    }

    /// Records that a sending handle was cloned.
    pub fn add_handle(&mut self)
        requires
            old(self).wf(),
            old(self).sender_count() < usize::MAX,
        ensures
            final(self).wf(),
            final(self).pid_view() == old(self).pid_view(),
            final(self).state_of() == old(self).state_of(),
            final(self).status_of() == old(self).status_of(),
            final(self).backlog() == old(self).backlog(),
            final(self).cap_of() == old(self).cap_of(),
            final(self).sender_count() == old(self).sender_count() + 1,
            final(self).receiver_is_open() == old(self).receiver_is_open(),
    {
        self.mailbox.add_sender();
    }

    /// Records that a sending handle was dropped. Only the loss of the last
    /// one lets the run loop stop cleanly once the backlog is drained.
    pub fn drop_handle(&mut self)
        requires
            old(self).wf(),
            old(self).sender_count() >= 1,
        ensures
            final(self).wf(),
            final(self).pid_view() == old(self).pid_view(),
            final(self).state_of() == old(self).state_of(),
            final(self).status_of() == old(self).status_of(),
            final(self).backlog() == old(self).backlog(),
            final(self).cap_of() == old(self).cap_of(),
            final(self).sender_count() == old(self).sender_count() - 1,
            final(self).receiver_is_open() == old(self).receiver_is_open(),
    {
        self.mailbox.drop_sender();
    }

    /// One turn of the run loop: await the next mailbox entry and hand it to
    /// the handler, exactly one invocation at a time against this process's
    /// state.
    ///
    /// A recoverable handler failure leaves the process running; a
    /// non-recoverable one stops it for good. A process that has stopped
    /// handles nothing and changes nothing, whatever its backlog holds.
    pub fn step<H: ProcessHandler<M, S>>(&mut self, handler: &mut H) -> (r: StepOutcome)
        requires
            old(self).wf(),
        ensures
            final(self).wf(),
            final(self).pid_view() == old(self).pid_view(),
            final(self).cap_of() == old(self).cap_of(),
            final(self).sender_count() == old(self).sender_count(),
            !(old(self).status_of() is Running) ==> r is AlreadyStopped && *final(self) == *old(self),
            old(self).status_of() is Running && old(self).backlog().len() == 0 && old(self).sender_count() > 0 ==> r is Idle && final(self).backlog() == old(self).backlog()
                && final(self).state_of() == old(self).state_of() && final(self).status_of() is Running && final(self).receiver_is_open() == old(self).receiver_is_open(),
            old(self).status_of() is Running && old(self).backlog().len() == 0 && old(self).sender_count() == 0 ==> r is Disconnected && final(self).status_of() is StoppedOk
                && final(self).backlog().len() == 0 && !final(self).receiver_is_open() && final(self).state_of() == old(self).state_of(),
            old(self).status_of() is Running && old(self).backlog().len() > 0 ==> H::effect(
                *old(handler),
                *final(handler),
                old(self).state_of(),
                final(self).state_of(),
                old(self).backlog().first(),
                outcome_err(r),
            ),
            !(old(self).status_of() is Running && old(self).backlog().len() > 0)
                ==> *final(handler) == *old(handler),
            old(self).status_of() is Running && old(self).backlog().len() > 0 ==> {
                &&& final(self).backlog() == old(self).backlog().drop_first()
                &&& final(self).receiver_is_open() == old(self).receiver_is_open()
                &&& (r is Handled || r is Recovered || r is Fatal)
                &&& (r is Handled ==> final(self).status_of() is Running)
                &&& (r matches StepOutcome::Recovered(e) ==> spec_recoverable(e) && final(self).status_of() is Running)
                &&& (r matches StepOutcome::Fatal(e) ==> !spec_recoverable(e) && final(self).status_of() == Status::StoppedErr(e))
            },
    {
        match &self.status {
            Status::Running => {},
            _ => {
                return StepOutcome::AlreadyStopped;
            },
        }
        match self.mailbox.dequeue() {
            RecvOutcome::Received(m) => {
                match handler.handle(&mut self.state, m) {
                    Ok(_) => StepOutcome::Handled,
                    Err(e) => {
                        if e.is_recoverable() {
                            StepOutcome::Recovered(e)
                        } else {
                            self.status = Status::StoppedErr(e.clone());
                            StepOutcome::Fatal(e)
                        }
                    },
                }
            },
            RecvOutcome::Empty => StepOutcome::Idle,
            RecvOutcome::Disconnected => {
                self.status = Status::StoppedOk;
                self.mailbox.close_receiver();
                StepOutcome::Disconnected
            },
        }
    }

    /// Drives the process to a suspension point or a terminal state: messages
    /// are handled strictly in mailbox order until the backlog runs dry (a
    /// concurrent loop suspends there; a drained, handle-less one stops
    /// cleanly) or a handler fails non-recoverably.
    ///
    /// Returns the terminal error, if any, and the messages the handler
    /// observed — always the longest prefix of the backlog it could reach, in
    /// send order. Whatever it could not reach stays in the mailbox.
    pub fn run<H: ProcessHandler<M, S>>(&mut self, handler: &mut H) -> (r: (
        Result<(), SwErlError>,
        Ghost<Seq<M>>,
    ))
        requires
            old(self).wf(),
        ensures
            final(self).wf(),
            final(self).pid_view() == old(self).pid_view(),
            final(self).cap_of() == old(self).cap_of(),
            final(self).sender_count() == old(self).sender_count(),
            r.1@.len() <= old(self).backlog().len(),
            r.1@ == old(self).backlog().take(r.1@.len() as int),
            final(self).backlog() == old(self).backlog().skip(r.1@.len() as int),
            handler_chain::<M, S, H>(
                *old(handler),
                *final(handler),
                old(self).state_of(),
                final(self).state_of(),
                r.1@,
            ),
            r.0 is Ok <==> !(final(self).status_of() is StoppedErr),
            r.0 matches Err(e) ==> final(self).status_of() == Status::StoppedErr(e)
                && !spec_recoverable(e),
            r.0 is Ok ==> final(self).backlog().len() == 0 && r.1@ == old(self).backlog(),
            r.0 matches Err(e) ==> (old(self).status_of() is Running ==> r.1@.len() >= 1 && (
            exists|hmid: H, smid: S|
                handler_chain::<M, S, H>(
                    *old(handler),
                    hmid,
                    old(self).state_of(),
                    smid,
                    r.1@.drop_last(),
                ) && #[trigger] H::effect(
                    hmid,
                    *final(handler),
                    smid,
                    final(self).state_of(),
                    r.1@.last(),
                    Some(e),
                ))),
            r.1@.len() == 0 ==> final(self).state_of() == old(self).state_of(),
            old(self).sender_count() == 0 && r.0 is Ok ==> final(self).status_of() is StoppedOk,
            old(self).status_of() is Running && old(self).sender_count() > 0 && r.0 is Ok
                ==> final(self).status_of() is Running,
    {
        let ghost mut handled: Seq<M> = Seq::empty();
        loop
            invariant
                self.wf(),
                self.pid_view() == old(self).pid_view(),
                self.cap_of() == old(self).cap_of(),
                self.sender_count() == old(self).sender_count(),
                0 <= handled.len() <= old(self).backlog().len(),
                handled == old(self).backlog().take(handled.len() as int),
                self.backlog() == old(self).backlog().skip(handled.len() as int),
                handler_chain::<M, S, H>(
                    *old(handler),
                    *handler,
                    old(self).state_of(),
                    self.state_of(),
                    handled,
                ),
                handled.len() == 0 ==> self.state_of() == old(self).state_of(),
                old(self).status_of() is Running ==> self.status_of() is Running,
                !(old(self).status_of() is Running) ==> self.status_of() == old(self).status_of(),
            decreases self.backlog().len(),
        {
            let ghost pre: Process<M, S> = *self;
            let ghost hpre: H = *handler;
            let ghost handled_pre = handled;
            let outcome = self.step(handler);
            proof {
                if pre.status_of() is Running && pre.backlog().len() > 0 {
                    lemma_handler_chain_push::<M, S, H>(
                        *old(handler),
                        hpre,
                        *handler,
                        old(self).state_of(),
                        pre.state_of(),
                        self.state_of(),
                        handled,
                        pre.backlog().first(),
                        outcome_err(outcome),
                    );
                    handled = handled.push(pre.backlog().first());
                    assert(handled =~= old(self).backlog().take(handled.len() as int));
                    assert(self.backlog() =~= old(self).backlog().skip(handled.len() as int));
                }
            }
            match outcome {
                StepOutcome::Handled => {},
                StepOutcome::Recovered(_) => {},
                StepOutcome::Fatal(e) => {
                    proof {
                        assert(handled.drop_last() =~= handled_pre);
                        assert(handled.last() == pre.backlog().first());
                        assert(H::effect(
                            hpre,
                            *handler,
                            pre.state_of(),
                            self.state_of(),
                            handled.last(),
                            Some(e),
                        ));
                    }
                    return (Err(e), Ghost(handled));
                },
                StepOutcome::Idle => {
                    proof {
                        assert(handled =~= old(self).backlog());
                    }
                    return (Ok(()), Ghost(handled));
                },
                StepOutcome::Disconnected => {
                    proof {
                        assert(handled =~= old(self).backlog());
                    }
                    return (Ok(()), Ghost(handled));
                },
                StepOutcome::AlreadyStopped => {
                    match &self.status {
                        Status::StoppedErr(e) => {
                            return (Err(e.clone()), Ghost(handled));
                        },
                        _ => {
                            proof {
                                assert(handled =~= old(self).backlog());
                            }
                            return (Ok(()), Ghost(handled));
                        },
                    }
                },
            }
        }
    }
}

/// Shape of one character of a generated identifier: hyphens at positions 8,
/// 13, 18 and 23, lower-case hexadecimal digits everywhere else.
pub open spec fn pid_char(c: char, i: int) -> bool {
    if i == 8 || i == 13 || i == 18 || i == 23 {
        c == '-'
    } else {
        ('0' <= c && c <= '9') || ('a' <= c && c <= 'f')
    }
}

/// A well-formed generated process identifier: the 36-character hyphenated
/// text of a version-4 UUID.
pub open spec fn is_generated_pid(s: Seq<char>) -> bool {
    &&& s.len() == 36
    &&& forall|i: int| 0 <= i < 36 ==> #[trigger] pid_char(s[i], i)
}

/// Relies on uuid::Uuid::new_v4 and the hyphenated lower-case text its
/// Display implementation writes: 36 characters, hyphens at positions 8, 13,
/// 18 and 23, hexadecimal digits elsewhere. The digits are drawn from the
/// operating system's randomness, so nothing relates one result to another.
#[verifier::external_body]
fn fresh_pid() -> (r: String)
    ensures
        is_generated_pid(r@),
{
    uuid::Uuid::new_v4().to_string()
}

/// Configures and launches a process: an optional explicit identifier, then
/// `spawn`.
pub struct ProcessBuilder {
    name: Option<String>,
}

impl ProcessBuilder {
    /// The explicit identifier, if one was given.
    pub closed spec fn name_of(&self) -> Option<Seq<char>> {
        match self.name {
            Some(n) => Some(n@),
            None => None,
        }
    }

    /// A builder with no explicit identifier: `spawn` will generate one.
    pub fn new() -> (r: Self)
        ensures
            r.name_of() is None,
    {
        ProcessBuilder { name: None }
    }

    /// Gives the process this exact identifier.
    pub fn name(self, name: &str) -> (r: Self)
        ensures
            r.name_of() == Some(name@),
    {
        ProcessBuilder { name: Some(String::from_str(name)) }
    }

    /// The identifier the spawned process will carry: the explicit name where
    /// one was given, a fresh generated identifier otherwise.
    pub fn resolve_pid(self) -> (r: ProcessId)
        ensures
            self.name_of() matches Some(n) ==> r@ == n,
            self.name_of() is None ==> is_generated_pid(r@),
    {
        match self.name {
            Some(n) => n,
            None => fresh_pid(),
        }
    }

    /// Builds a running process with the default bounded mailbox and one
    /// sending handle, returning its identifier and the process itself for an
    /// embedding to drive. Spawning decides nothing about the messages to
    /// come: the run loop is handed its handler later.
    pub fn spawn<M, S>(self, initial_state: S) -> (r: (ProcessId, Process<M, S>))
        ensures
            r.1.wf(),
            r.1.pid_view() == r.0@,
            r.1.state_of() == initial_state,
            r.1.status_of() is Running,
            r.1.backlog().len() == 0,
            r.1.cap_of() == DEFAULT_CAPACITY,
            r.1.sender_count() == 1,
            r.1.receiver_is_open(),
            self.name_of() matches Some(n) ==> r.0@ == n,
            self.name_of() is None ==> is_generated_pid(r.0@),
    {
        let pid = self.resolve_pid();
        let mailbox = Mailbox::new(DEFAULT_CAPACITY);
        let pid_out = pid.clone();
        let process = Process::new(pid, initial_state, mailbox);
        (pid_out, process)
    }
}

} // verus!
