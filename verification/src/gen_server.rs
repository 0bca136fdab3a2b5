use vstd::prelude::*;
use vstd::pervasive::unreached;

use crate::error::SwErlError;
use crate::mailbox::SendOutcome;
use crate::mailbox::DEFAULT_CAPACITY;
use crate::process::Process;
use crate::process::ProcessBuilder;
use crate::process::ProcessHandler;
use crate::process::Status;
use crate::process::StepOutcome;
use crate::process::handler_chain;
use crate::process::handler_err;
use crate::process::lemma_handler_chain_push;
use crate::process::outcome_err;
use crate::process::is_generated_pid;

verus! {

/// The wrapper that tells a fire-and-forget request from one awaiting a
/// reply. A message of any other shape is ignored by policy: unknown messages
/// never crash a server.
pub enum Envelope<M> {
    /// Apply and discard; no reply expected.
    Cast(M),
    /// A request carrying the identity of its single-use reply channel.
    Call(M, u64),
    /// A message of a shape the dispatcher does not know.
    Other,
}

/// The behavior contract a server implementation supplies: `init` runs once
/// at startup and yields the initial state, `handle_cast` applies a
/// fire-and-forget message, and `handle_call` must produce exactly one reply
/// value, which the dispatcher forwards whether or not the callback counts it
/// a success.
///
/// Each callback comes with a specification relation of the implementation's
/// own choosing; the dispatcher and the server carry these relations through
/// to their callers, so whatever an implementation proves of its callbacks
/// holds of the server built from it.
pub trait GenServerBehavior: Sized {
    type Msg;

    type St;

    /// What `init` may yield for given arguments. An implementation that
    /// leaves the default promises nothing.
    open spec fn init_spec(&self, args: Option<Self::Msg>, r: Result<Self::St, SwErlError>) -> bool {
        true
    }

    /// What one `handle_cast` invocation may do to the state, and the failure
    /// it may report, if any. An implementation that leaves the default
    /// promises nothing.
    open spec fn cast_spec(&self, msg: Self::Msg, s_pre: Self::St, s_post: Self::St, err: Option<
        SwErlError,
    >) -> bool {
        true
    }

    /// What one `handle_call` invocation may do to the state, and the reply
    /// it may produce. An implementation that leaves the default promises
    /// nothing.
    open spec fn call_spec(&self, msg: Self::Msg, s_pre: Self::St, s_post: Self::St, r: Result<
        Self::Msg,
        SwErlError,
    >) -> bool {
        true
    }

    fn init(&self, args: Option<Self::Msg>) -> (r: Result<Self::St, SwErlError>)
        ensures
            self.init_spec(args, r),
    ;

    fn handle_cast(&self, msg: Self::Msg, state: &mut Self::St) -> (r: Result<(), SwErlError>)
        ensures
            self.cast_spec(msg, *old(state), *final(state), handler_err(r)),
    ;

    fn handle_call(&self, msg: Self::Msg, state: &mut Self::St) -> (r: Result<
        Self::Msg,
        SwErlError,
    >)
        ensures
            self.call_spec(msg, *old(state), *final(state), r),
    ;
}

/// The server handed `msg` to `handle_cast`, carrying the state from `s_pre`
/// to `s_post`, with some reported failure or none: the invocation is related
/// by the behavior's own `cast_spec`.
pub open spec fn cast_observed<B: GenServerBehavior>(
    b: B,
    msg: B::Msg,
    s_pre: B::St,
    s_post: B::St,
) -> bool {
    exists|errc: Option<SwErlError>| #[trigger] b.cast_spec(msg, s_pre, s_post, errc)
}

/// The server drained `backlog` in order — one `handle_cast` invocation per
/// queued cast, linked by the dispatcher's `effect` relation — and then
/// answered the call on `msg` with `r`, the reply `handle_call` produced from
/// the state the drain left behind.
pub open spec fn served_in_order<B: GenServerBehavior>(
    d0: Dispatcher<B>,
    b: B,
    s0: B::St,
    backlog: Seq<Envelope<B::Msg>>,
    msg: B::Msg,
    s_post: B::St,
    r: Result<B::Msg, SwErlError>,
) -> bool {
    exists|dmid: Dispatcher<B>, smid: B::St|
        #[trigger] handler_chain::<Envelope<B::Msg>, B::St, Dispatcher<B>>(
            d0,
            dmid,
            s0,
            smid,
            backlog,
        ) && b.call_spec(msg, smid, s_post, r)
}

/// Draining the backlog stopped the server: some prefix was handled in
/// order, and the next envelope's invocation reported a non-recoverable
/// failure, all by the dispatcher's `effect` relation.
pub open spec fn drain_failed<B: GenServerBehavior>(
    d0: Dispatcher<B>,
    s0: B::St,
    backlog: Seq<Envelope<B::Msg>>,
    s_post: B::St,
) -> bool {
    exists|k: int, dmid: Dispatcher<B>, dpost: Dispatcher<B>, smid: B::St, e: SwErlError|
        0 <= k < backlog.len() && handler_chain::<Envelope<B::Msg>, B::St, Dispatcher<B>>(
            d0,
            dmid,
            s0,
            smid,
            backlog.take(k),
        ) && #[trigger] Dispatcher::<B>::effect(dmid, dpost, smid, s_post, backlog[k], Some(e))
            && !crate::error::spec_recoverable(e)
}

/// The server answered a call on `msg` with `r`: some intermediate state —
/// the one the server held when the call's envelope was dispatched — relates
/// to the final state and the reply by the behavior's own `call_spec`.
pub open spec fn call_answered<B: GenServerBehavior>(
    b: B,
    msg: B::Msg,
    s_post: B::St,
    r: Result<B::Msg, SwErlError>,
) -> bool {
    exists|smid: B::St| #[trigger] b.call_spec(msg, smid, s_post, r)
}

/// Whether some entry of the reply store answers this call identifier.
pub open spec fn has_reply<T>(rs: Seq<(u64, T)>, id: u64) -> bool {
    exists|i: int| 0 <= i < rs.len() && (#[trigger] rs[i]).0 == id
}

/// The position of the first entry answering this call identifier, or -1
/// where none does.
pub open spec fn first_reply_index<T>(rs: Seq<(u64, T)>, id: u64) -> int
    decreases rs.len(),
{
    if rs.len() == 0 {
        -1
    } else if rs[0].0 == id {
        0
    } else {
        let sub = first_reply_index(rs.drop_first(), id);
        if sub < 0 {
            -1
        } else {
            sub + 1
        }
    }
}

proof fn lemma_first_reply_index<T>(rs: Seq<(u64, T)>, id: u64, i: int)
    requires
        0 <= i < rs.len(),
        rs[i].0 == id,
        forall|j: int| 0 <= j < i ==> (#[trigger] rs[j]).0 != id,
    ensures
        first_reply_index(rs, id) == i,
    decreases i,
{
    if i > 0 {
        assert forall|j: int| 0 <= j < i - 1 implies (#[trigger] rs.drop_first()[j]).0
            != id by {
            assert(rs.drop_first()[j] == rs[j + 1]);
        }
        assert(rs.drop_first()[i - 1] == rs[i]);
        lemma_first_reply_index(rs.drop_first(), id, i - 1);
    }
}

/// A call's reply channel is used exactly once. Once the dispatcher records
/// the reply for a call identifier no earlier entry carries, that entry is
/// the one the caller takes; taking it removes it and leaves the store as it
/// was; and before it was recorded there was nothing to take at all.
pub proof fn lemma_reply_exactly_once<T>(before: Seq<(u64, T)>, id: u64, res: T)
    requires
        forall|i: int| 0 <= i < before.len() ==> (#[trigger] before[i]).0 != id,
    ensures
        !has_reply(before, id),
        has_reply(before.push((id, res)), id),
        first_reply_index(before.push((id, res)), id) == before.len(),
        before.push((id, res))[first_reply_index(before.push((id, res)), id)].1 == res,
        before.push((id, res)).remove(first_reply_index(before.push((id, res)), id)) == before,
{
    let after = before.push((id, res));
    assert(after[before.len() as int].0 == id);
    lemma_first_reply_index(after, id, before.len() as int);
    assert(after.remove(before.len() as int) =~= before);
}

/// Takes the first reply answering this call identifier out of the store, if
/// one is there. A reply can be taken at most once: afterwards the entry is
/// gone.
fn take_reply<T>(replies: &mut Vec<(u64, T)>, id: u64) -> (r: Option<T>)
    ensures
        !has_reply(old(replies)@, id) ==> r is None && final(replies)@ == old(replies)@,
        has_reply(old(replies)@, id) ==> {
            let i = first_reply_index(old(replies)@, id);
            &&& 0 <= i < old(replies)@.len()
            &&& old(replies)@[i].0 == id
            &&& r == Some(old(replies)@[i].1)
            &&& final(replies)@ == old(replies)@.remove(i)
        },
{
    let mut i: usize = 0;
    while i < replies.len()
        invariant
            0 <= i <= replies@.len(),
            replies@ == old(replies)@,
            forall|j: int| 0 <= j < i ==> (#[trigger] replies@[j]).0 != id,
        decreases replies@.len() - i,
    {
        if replies[i].0 == id {
            proof {
                lemma_first_reply_index(replies@, id, i as int);
            }
            let (_, v) = replies.remove(i);
            return Some(v);
        }
        i = i + 1;
    }
    proof {
        if has_reply(replies@, id) {
            let w = choose|w: int| 0 <= w < replies@.len() && (#[trigger] replies@[w]).0 == id;
            assert(replies@[w].0 != id);
        }
    }
    None
}

/// Wraps a behavior's callbacks into a process handler: a cast envelope goes
/// to `handle_cast` and its result flows into the run loop's recoverability
/// policy; a call envelope goes to `handle_call`, whose result — success or
/// failure — is recorded for the caller, exactly one entry per call; any
/// other message is ignored.
pub struct Dispatcher<B: GenServerBehavior> {
    behavior: B,
    replies: Vec<(u64, Result<B::Msg, SwErlError>)>,
    history: Ghost<Seq<(u64, Result<B::Msg, SwErlError>)>>,
}

impl<B: GenServerBehavior> Dispatcher<B> {
    /// The behavior whose callbacks this dispatcher wraps.
    pub closed spec fn behavior_of(&self) -> B {
        self.behavior
    }

    /// The replies recorded and not yet taken by their callers.
    pub closed spec fn replies_of(&self) -> Seq<(u64, Result<B::Msg, SwErlError>)> {
        self.replies@
    }

    /// Every reply ever sent through a call's reply channel, oldest first:
    /// the full record of what each call was answered with.
    pub closed spec fn history_of(&self) -> Seq<(u64, Result<B::Msg, SwErlError>)> {
        self.history@
    }

    /// A dispatcher around a behavior, with no reply owed to anyone and none
    /// ever sent.
    pub fn new(behavior: B) -> (r: Self)
        ensures
            r.behavior_of() == behavior,
            r.replies_of() == Seq::<(u64, Result<B::Msg, SwErlError>)>::empty(),
            r.history_of() == Seq::<(u64, Result<B::Msg, SwErlError>)>::empty(),
    {
        Dispatcher { behavior, replies: Vec::new(), history: Ghost(Seq::empty()) }
    }

    /// Demultiplexes one envelope. A call envelope always records exactly one
    /// reply — the callback's own result, never silently dropped — and counts
    /// as handled whatever that result was; cast failures flow out to the run
    /// loop; unknown envelopes change nothing.
    pub fn dispatch(&mut self, state: &mut B::St, msg: Envelope<B::Msg>) -> (r: Result<
        (),
        SwErlError,
    >)
        ensures
            final(self).behavior_of() == old(self).behavior_of(),
            msg matches Envelope::Cast(m) ==> final(self).replies_of() == old(self).replies_of()
                && final(self).history_of() == old(self).history_of() && old(self).behavior_of().cast_spec(m, *old(state), *final(state), handler_err(r)),
            msg matches Envelope::Call(m, id) ==> r is Ok
                && final(self).replies_of() == old(self).replies_of().push(
                (id, final(self).replies_of().last().1),
            ) && final(self).replies_of().last().0 == id && final(self).history_of() == old(self).history_of().push(final(self).replies_of().last())
                && old(self).behavior_of().call_spec(m, *old(state), *final(state), final(self).replies_of().last().1),
            msg is Other ==> r is Ok && final(self).replies_of() == old(self).replies_of()
                && final(self).history_of() == old(self).history_of() && *final(state) == *old(state),
    {
        match msg {
            Envelope::Cast(m) => self.behavior.handle_cast(m, state),
            Envelope::Call(m, id) => {
                let res = self.behavior.handle_call(m, state);
                let ghost entry: (u64, Result<B::Msg, SwErlError>) = (id, res);
                proof {
                    self.history@ = self.history@.push(entry);
                }
                self.replies.push((id, res));
                Ok(())
            },
            Envelope::Other => Ok(()),
        }
    }
}

impl<B: GenServerBehavior> ProcessHandler<Envelope<B::Msg>, B::St> for Dispatcher<B> {
    /// One invocation keeps the behavior; a cast goes to `handle_cast`, whose
    /// own specification relates the states and the reported failure, and
    /// leaves the reply store alone; a call goes to `handle_call`, appending
    /// exactly one entry — the callback's own result under the call's own
    /// identifier — to the store and the history; an unknown message changes
    /// nothing at all.
    open spec fn effect(
        pre: Self,
        post: Self,
        s_pre: B::St,
        s_post: B::St,
        msg: Envelope<B::Msg>,
        err: Option<SwErlError>,
    ) -> bool {
        &&& post.behavior_of() == pre.behavior_of()
        &&& (msg matches Envelope::Cast(m) ==> post.replies_of() == pre.replies_of()
            && post.history_of() == pre.history_of() && pre.behavior_of().cast_spec(
            m,
            s_pre,
            s_post,
            err,
        ))
        &&& (msg matches Envelope::Call(m, id) ==> err is None && post.replies_of()
            == pre.replies_of().push((id, post.replies_of().last().1)) && post.replies_of().last().0
            == id && post.history_of() == pre.history_of().push(post.replies_of().last())
            && pre.behavior_of().call_spec(m, s_pre, s_post, post.replies_of().last().1))
        &&& (msg is Other ==> err is None && post.replies_of() == pre.replies_of()
            && post.history_of() == pre.history_of() && s_post == s_pre)
    }

    fn handle(&mut self, state: &mut B::St, msg: Envelope<B::Msg>) -> (r: Result<
        (),
        SwErlError,
    >) {
        self.dispatch(state, msg)
    }
}

/// What `GenServer::start` hands back: the capability to cast and call
/// against the server. The runtime being driven synchronously, the handle
/// also carries the server process itself and drains it on the caller's
/// behalf while a call awaits its reply.
pub struct ServerHandle<B: GenServerBehavior> {
    process: Process<Envelope<B::Msg>, B::St>,
    dispatcher: Dispatcher<B>,
    next_call_id: u64,
}

impl<B: GenServerBehavior> ServerHandle<B> {
    /// The server's process identifier.
    pub closed spec fn pid_view(&self) -> Seq<char> {
        self.process.pid_view()
    }

    /// The server process's life-cycle stage.
    pub closed spec fn status_of(&self) -> Status {
        self.process.status_of()
    }

    /// The envelopes waiting in the server's mailbox, oldest first.
    pub closed spec fn backlog(&self) -> Seq<Envelope<B::Msg>> {
        self.process.backlog()
    }

    /// The mailbox capacity.
    pub closed spec fn cap_of(&self) -> int {
        self.process.cap_of()
    }

    /// Whether the mailbox still accepts envelopes.
    pub closed spec fn receiver_is_open(&self) -> bool {
        self.process.receiver_is_open()
    }

    /// How many sending handles are alive.
    pub closed spec fn sender_count(&self) -> int {
        self.process.sender_count()
    }

    /// The server's private state.
    pub closed spec fn state_of(&self) -> B::St {
        self.process.state_of()
    }

    /// The behavior whose callbacks this server runs.
    pub closed spec fn behavior_of(&self) -> B {
        self.dispatcher.behavior_of()
    }

    /// The dispatcher wrapping the behavior: the process handler whose
    /// `effect` relation links each handled envelope to the callbacks.
    pub closed spec fn dispatcher_of(&self) -> Dispatcher<B> {
        self.dispatcher
    }

    /// The replies recorded and not yet taken.
    pub closed spec fn pending_replies(&self) -> Seq<(u64, Result<B::Msg, SwErlError>)> {
        self.dispatcher.replies_of()
    }

    /// Every reply this server ever sent through a call's reply channel,
    /// oldest first.
    pub closed spec fn reply_history(&self) -> Seq<(u64, Result<B::Msg, SwErlError>)> {
        self.dispatcher.history_of()
    }

    /// The identifier the next call's reply channel will carry.
    pub closed spec fn next_id(&self) -> u64 {
        self.next_call_id
    }

    /// A sound server: a well-formed process, nobody owed a reply between
    /// calls (each call takes its own reply before returning), and, while the
    /// server runs, nothing but casts waiting.
    pub closed spec fn wf(&self) -> bool {
        &&& self.process.wf()
        &&& self.process.sender_count() <= 1
        &&& (self.process.receiver_is_open() <==> !(self.process.status_of() is StoppedOk))
        &&& self.dispatcher.replies_of().len() == 0
        &&& (self.process.status_of() is Running ==> forall|i: int|
            0 <= i < self.process.backlog().len() ==> (#[trigger] self.process.backlog()[
                i
            ]) is Cast)
    }

    /// The server's process identifier.
    pub fn pid(&self) -> (r: &String)
        ensures
            r@ == self.pid_view(),
    {
        self.process.pid()
    }

    /// Whether the server still handles envelopes.
    pub fn is_running(&self) -> (r: bool)
        ensures
            r == (self.status_of() is Running),
    {
        self.process.is_running()
    }

    /// The fatal error that stopped the server, if one did.
    pub fn failure(&self) -> (r: Option<&SwErlError>)
        ensures
            r is Some <==> self.status_of() is StoppedErr,
            r matches Some(e) ==> self.status_of() == Status::StoppedErr(*e),
    {
        self.process.failure()
    }

    /// How many envelopes wait unhandled.
    pub fn backlog_len(&self) -> (r: usize)
        ensures
            r == self.backlog().len(),
    {
        self.process.backlog_len()
    }

    /// The mailbox capacity.
    pub fn capacity(&self) -> (r: usize)
        ensures
            r == self.cap_of(),
    {
        self.process.capacity()
    }

    /// Whether the mailbox still accepts envelopes.
    pub fn mailbox_open(&self) -> (r: bool)
        ensures
            r == self.receiver_is_open(),
    {
        self.process.mailbox_open()
    }

    /// Models the end of the handle's life: the last sending handle is
    /// dropped and the server is left to drain what remains. A running server
    /// handles its backlog in order and stops cleanly once it is empty, or
    /// stops earlier on a fatal error, keeping the rest; either way it handles
    /// nothing ever after. Returns the envelopes that were handled — always a
    /// prefix of the backlog, in order.
    pub fn shutdown(&mut self) -> (r: Ghost<Seq<Envelope<B::Msg>>>)
        requires
            old(self).wf(),
        ensures
            final(self).wf(),
            final(self).pid_view() == old(self).pid_view(),
            final(self).cap_of() == old(self).cap_of(),
            final(self).sender_count() == 0,
            !(final(self).status_of() is Running),
            final(self).status_of() is StoppedOk ==> !final(self).receiver_is_open() && final(self).backlog().len() == 0,
            final(self).pending_replies().len() == 0,
            final(self).behavior_of() == old(self).behavior_of(),
            final(self).reply_history() == old(self).reply_history(),
            handler_chain::<Envelope<B::Msg>, B::St, Dispatcher<B>>(
                old(self).dispatcher_of(),
                final(self).dispatcher_of(),
                old(self).state_of(),
                final(self).state_of(),
                r@,
            ),
            r@.len() <= old(self).backlog().len(),
            r@ == old(self).backlog().take(r@.len() as int),
            final(self).backlog() == old(self).backlog().skip(r@.len() as int),
            !(old(self).status_of() is Running) ==> final(self).status_of() == old(self).status_of() && r@.len() == 0,
            old(self).status_of() is Running && old(self).backlog().len() == 0 ==> final(self).status_of() is StoppedOk,
            final(self).status_of() is StoppedOk ==> r@ == old(self).backlog(),
            old(self).status_of() is Running && final(self).status_of() is StoppedErr ==> r@.len()
                >= 1,
    {
        if self.process.handle_count() > 0 {
            self.process.drop_handle();
        }
        let ghost mut drained: Seq<Envelope<B::Msg>> = Seq::empty();
        loop
            invariant
                self.process.wf(),
                self.process.pid_view() == old(self).pid_view(),
                self.process.cap_of() == old(self).cap_of(),
                self.process.sender_count() == 0,
                self.process.receiver_is_open() <==> !(self.process.status_of() is StoppedOk),
                self.dispatcher.replies_of().len() == 0,
                self.dispatcher.history_of() == old(self).reply_history(),
                self.dispatcher.behavior_of() == old(self).behavior_of(),
                handler_chain::<Envelope<B::Msg>, B::St, Dispatcher<B>>(
                    old(self).dispatcher_of(),
                    self.dispatcher,
                    old(self).state_of(),
                    self.process.state_of(),
                    drained,
                ),
                0 <= drained.len() <= old(self).backlog().len(),
                drained == old(self).backlog().take(drained.len() as int),
                self.process.backlog() == old(self).backlog().skip(drained.len() as int),
                old(self).status_of() is Running ==> self.process.status_of() is Running,
                !(old(self).status_of() is Running) ==> self.process.status_of() == old(self).status_of() && drained.len() == 0,
                self.process.status_of() is Running ==> forall|i: int|
                    0 <= i < self.process.backlog().len() ==> (#[trigger] self.process.backlog()[
                        i
                    ]) is Cast,
            decreases self.process.backlog().len(),
        {
            let ghost pre: Process<Envelope<B::Msg>, B::St> = self.process;
            let ghost dpre: Dispatcher<B> = self.dispatcher;
            let outcome = self.process.step(&mut self.dispatcher);
            proof {
                if pre.status_of() is Running && pre.backlog().len() > 0 {
                    assert(pre.backlog()[0] is Cast);
                    lemma_handler_chain_push::<Envelope<B::Msg>, B::St, Dispatcher<B>>(
                        old(self).dispatcher_of(),
                        dpre,
                        self.dispatcher,
                        old(self).state_of(),
                        pre.state_of(),
                        self.process.state_of(),
                        drained,
                        pre.backlog().first(),
                        outcome_err(outcome),
                    );
                    drained = drained.push(pre.backlog().first());
                    assert(drained =~= old(self).backlog().take(drained.len() as int));
                    assert(self.process.backlog() =~= old(self).backlog().skip(
                        drained.len() as int,
                    ));
                    assert forall|i: int| 0 <= i < self.process.backlog().len() implies (
                    #[trigger] self.process.backlog()[i]) is Cast by {
                        assert(self.process.backlog()[i] == pre.backlog()[i + 1]);
                    }
                }
            }
            match outcome {
                StepOutcome::Handled => {},
                StepOutcome::Recovered(_) => {},
                StepOutcome::Fatal(_) => {
                    return Ghost(drained);
                },
                StepOutcome::Disconnected => {
                    proof {
                        assert(drained =~= old(self).backlog());
                    }
                    return Ghost(drained);
                },
                StepOutcome::AlreadyStopped => {
                    proof {
                        if self.process.status_of() is StoppedOk {
                            assert(drained =~= old(self).backlog());
                        }
                    }
                    return Ghost(drained);
                },
                StepOutcome::Idle => unreached(),
            }
        }
    }
}

/// The request/response protocol layer over a process: start a server from a
/// behavior, then fire casts and await calls against its handle.
pub struct GenServer;

impl GenServer {
    /// Starts a new server: runs the behavior's `init` — the caller awaits
    /// its completion — and only on success spawns a process whose handler
    /// demultiplexes cast and call envelopes. An `init` failure propagates to
    /// the caller and no process is spawned.
    pub fn start<B: GenServerBehavior>(behavior: B, args: Option<B::Msg>) -> (r: Result<
        ServerHandle<B>,
        SwErlError,
    >)
        ensures
            r matches Ok(h) ==> h.wf() && h.status_of() is Running && h.backlog().len() == 0
                && h.cap_of() == DEFAULT_CAPACITY && h.receiver_is_open() && h.sender_count() == 1
                && h.pending_replies().len() == 0 && h.reply_history() == Seq::<
                    (u64, Result<B::Msg, SwErlError>),
                >::empty() && is_generated_pid(h.pid_view()) && h.behavior_of() == behavior
                && behavior.init_spec(args, Result::<B::St, SwErlError>::Ok(h.state_of())),
            r matches Err(e) ==> behavior.init_spec(args, Result::<B::St, SwErlError>::Err(e)),
    {
        let initial_state = match behavior.init(args) {
            Ok(s) => s,
            Err(e) => {
                return Err(e);
            },
        };
        let (_pid, process) = ProcessBuilder::new().spawn(initial_state);
        let dispatcher = Dispatcher::new(behavior);
        Ok(ServerHandle { process, dispatcher, next_call_id: 0 })
    }

    /// Wraps a message in a cast envelope and enqueues it: fire and forget.
    /// Returns once the envelope is enqueued — saying nothing about whether
    /// or when it is handled — and fails only when no process remains to
    /// receive. A sender that finds the mailbox at capacity waits for the
    /// still-running server to take one message, then its envelope goes in;
    /// with a stopped server and a full mailbox it would wait forever, which
    /// is why that one case is asked away.
    pub fn cast<B: GenServerBehavior>(server: &mut ServerHandle<B>, msg: B::Msg) -> (r: Result<
        (),
        SwErlError,
    >)
        requires
            old(server).wf(),
            !(old(server).status_of() is StoppedErr && old(server).backlog().len() == old(server).cap_of()),
        ensures
            final(server).wf(),
            final(server).pid_view() == old(server).pid_view(),
            final(server).cap_of() == old(server).cap_of(),
            final(server).sender_count() == old(server).sender_count(),
            final(server).receiver_is_open() == old(server).receiver_is_open(),
            final(server).behavior_of() == old(server).behavior_of(),
            final(server).reply_history() == old(server).reply_history(),
            !old(server).receiver_is_open() ==> r == Err::<(), SwErlError>(
                SwErlError::MailboxClosed,
            ) && final(server).backlog() == old(server).backlog() && final(server).status_of()
                == old(server).status_of() && final(server).state_of() == old(server).state_of(),
            old(server).receiver_is_open() && old(server).backlog().len() < old(server).cap_of()
                ==> r is Ok && final(server).backlog() == old(server).backlog().push(
                Envelope::Cast(msg),
            ) && final(server).status_of() == old(server).status_of() && final(server).state_of()
                == old(server).state_of(),
            old(server).receiver_is_open() && old(server).backlog().len() == old(server).cap_of()
                ==> r is Ok && final(server).backlog() == old(server).backlog().drop_first().push(Envelope::Cast(msg)) && (final(server).status_of() is Running || final(server).status_of() is StoppedErr) && (old(server).backlog().first() matches Envelope::Cast(m0)
                ==> cast_observed(
                old(server).behavior_of(),
                m0,
                old(server).state_of(),
                final(server).state_of(),
            )),
    {
        if !server.process.mailbox_open() {
            return Err(SwErlError::MailboxClosed);
        }
        if server.process.backlog_len() == server.process.capacity() {
            let full_outcome = server.process.step(&mut server.dispatcher);
            let ghost fo = full_outcome;
            proof {
                assert(old(server).backlog()[0] is Cast);
                assert(old(server).behavior_of().cast_spec(
                    old(server).backlog().first()->Cast_0,
                    old(server).state_of(),
                    server.process.state_of(),
                    outcome_err(fo),
                ));
                assert(cast_observed(
                    old(server).behavior_of(),
                    old(server).backlog().first()->Cast_0,
                    old(server).state_of(),
                    server.process.state_of(),
                ));
                assert forall|i: int| 0 <= i < server.process.backlog().len() implies (
                #[trigger] server.process.backlog()[i]) is Cast by {
                    assert(server.process.backlog()[i] == old(server).backlog()[i + 1]);
                }
            }
        }
        match server.process.enqueue(Envelope::Cast(msg)) {
            SendOutcome::Enqueued => Ok(()),
            SendOutcome::Full => unreached(),
            SendOutcome::Closed => unreached(),
        }
    }

    /// Wraps a message in a call envelope with a freshly created single-use
    /// reply channel, enqueues it, then waits while the server drains its
    /// mailbox in order — everything queued earlier first, then this call —
    /// until the reply arrives or the server stops. Resolves with exactly one
    /// reply: the callback's own result, success or failure; or with a
    /// mailbox-closed error when no process remains to answer, never by
    /// hanging on a terminated server. A stopped server with a full mailbox
    /// would leave the sender waiting forever; that one case is asked away.
    /// No deadline is imposed here, though the taxonomy has a kind for one:
    /// callers needing bounded latency impose their own externally.
    pub fn call<B: GenServerBehavior>(server: &mut ServerHandle<B>, msg: B::Msg) -> (r: Result<
        B::Msg,
        SwErlError,
    >)
        requires
            old(server).wf(),
            !(old(server).status_of() is StoppedErr && old(server).backlog().len() == old(server).cap_of()),
        ensures
            final(server).wf(),
            final(server).pid_view() == old(server).pid_view(),
            final(server).cap_of() == old(server).cap_of(),
            final(server).sender_count() == old(server).sender_count(),
            final(server).behavior_of() == old(server).behavior_of(),
            final(server).receiver_is_open() <==> !(final(server).status_of() is StoppedOk),
            final(server).pending_replies().len() == 0,
            !(old(server).status_of() is Running) ==> final(server).status_of() == old(server).status_of(),
            old(server).status_of() is Running && final(server).status_of() is StoppedErr
                ==> drain_failed(
                old(server).dispatcher_of(),
                old(server).state_of(),
                old(server).backlog(),
                final(server).state_of(),
            ),
            old(server).status_of() is Running ==> ((final(server).status_of() is Running
                && final(server).backlog().len() == 0) || (final(server).status_of() is StoppedErr
                && r == Err::<B::Msg, SwErlError>(SwErlError::MailboxClosed))),
            final(server).status_of() is Running ==> call_answered(
                old(server).behavior_of(),
                msg,
                final(server).state_of(),
                r,
            ) && served_in_order(
                old(server).dispatcher_of(),
                old(server).behavior_of(),
                old(server).state_of(),
                old(server).backlog(),
                msg,
                final(server).state_of(),
                r,
            ),
            old(server).status_of() is Running && old(server).backlog().len() == 0 ==> final(server).status_of() is Running && old(server).behavior_of().call_spec(
                msg,
                old(server).state_of(),
                final(server).state_of(),
                r,
            ),
            final(server).status_of() is Running ==> final(server).reply_history() == old(server).reply_history().push((old(server).next_id(), r)),
            !(final(server).status_of() is Running) ==> r == Err::<B::Msg, SwErlError>(
                SwErlError::MailboxClosed,
            ) && final(server).reply_history() == old(server).reply_history(),
            !(old(server).status_of() is Running) ==> r == Err::<B::Msg, SwErlError>(
                SwErlError::MailboxClosed,
            ),
            !old(server).receiver_is_open() ==> final(server).backlog() == old(server).backlog(),
            old(server).status_of() is StoppedErr ==> final(server).backlog() == old(server).backlog().push(Envelope::Call(msg, old(server).next_id())),
    {
        let id: u64 = server.next_call_id;
        if server.next_call_id < u64::MAX {
            server.next_call_id = server.next_call_id + 1;
        }
        if !server.process.mailbox_open() {
            return Err(SwErlError::MailboxClosed);
        }
        let ghost mut drained: Seq<Envelope<B::Msg>> = Seq::empty();
        proof {
            assert(handler_chain::<Envelope<B::Msg>, B::St, Dispatcher<B>>(
                old(server).dispatcher_of(),
                server.dispatcher,
                old(server).state_of(),
                server.process.state_of(),
                drained,
            ));
        }
        if server.process.backlog_len() == server.process.capacity() {
            let ghost dpre0: Dispatcher<B> = server.dispatcher;
            let pre_outcome = server.process.step(&mut server.dispatcher);
            let ghost po = pre_outcome;
            proof {
                assert(old(server).backlog()[0] is Cast);
                if !(server.process.status_of() is Running) {
                    assert(po is Fatal);
                    assert(old(server).backlog().take(0) =~= Seq::<Envelope<B::Msg>>::empty());
                    assert(handler_chain::<Envelope<B::Msg>, B::St, Dispatcher<B>>(
                        old(server).dispatcher_of(),
                        old(server).dispatcher_of(),
                        old(server).state_of(),
                        old(server).state_of(),
                        old(server).backlog().take(0),
                    ));
                    assert(Dispatcher::<B>::effect(
                        dpre0,
                        server.dispatcher,
                        old(server).state_of(),
                        server.process.state_of(),
                        old(server).backlog()[0],
                        outcome_err(po),
                    ));
                    assert(drain_failed(
                        old(server).dispatcher_of(),
                        old(server).state_of(),
                        old(server).backlog(),
                        server.process.state_of(),
                    ));
                }
                lemma_handler_chain_push::<Envelope<B::Msg>, B::St, Dispatcher<B>>(
                    old(server).dispatcher_of(),
                    dpre0,
                    server.dispatcher,
                    old(server).state_of(),
                    old(server).state_of(),
                    server.process.state_of(),
                    drained,
                    old(server).backlog().first(),
                    outcome_err(po),
                );
                drained = drained.push(old(server).backlog().first());
                assert(drained =~= old(server).backlog().take(drained.len() as int));
                assert forall|i: int| 0 <= i < server.process.backlog().len() implies (
                #[trigger] server.process.backlog()[i]) is Cast by {
                    assert(server.process.backlog()[i] == old(server).backlog()[i + 1]);
                }
            }
        }
        let ghost env: Envelope<B::Msg> = Envelope::Call(msg, id);
        match server.process.enqueue(Envelope::Call(msg, id)) {
            SendOutcome::Enqueued => {},
            SendOutcome::Full => unreached(),
            SendOutcome::Closed => unreached(),
        }
        proof {
            if old(server).status_of() is Running {
                assert(server.process.backlog() =~= old(server).backlog().skip(
                    drained.len() as int,
                ).push(env));
            }
        }
        loop
            invariant
                server.process.wf(),
                server.process.pid_view() == old(server).pid_view(),
                server.process.cap_of() == old(server).cap_of(),
                server.process.sender_count() == old(server).sender_count(),
                server.process.sender_count() <= 1,
                old(server).receiver_is_open(),
                id == old(server).next_id(),
                env == Envelope::Call(msg, id),
                server.process.receiver_is_open() <==> !(server.process.status_of() is StoppedOk),
                server.process.receiver_is_open(),
                server.dispatcher.behavior_of() == old(server).behavior_of(),
                !(old(server).status_of() is Running) ==> server.process.status_of() == old(server).status_of()
                    && server.process.backlog() == old(server).backlog().push(env),
                old(server).status_of() is Running && old(server).backlog().len() == 0
                    ==> server.process.status_of() is Running && server.process.backlog().len()
                    <= 1 && (server.dispatcher.replies_of().len() == 0
                    ==> server.process.state_of() == old(server).state_of()),
                server.dispatcher.replies_of().len() == 1 ==> exists|smid: B::St|
                    #[trigger] old(server).behavior_of().call_spec(
                        msg,
                        smid,
                        server.process.state_of(),
                        server.dispatcher.replies_of()[0].1,
                    ),
                old(server).status_of() is Running && old(server).backlog().len() == 0
                    && server.dispatcher.replies_of().len() == 1 ==> old(server).behavior_of().call_spec(
                    msg,
                    old(server).state_of(),
                    server.process.state_of(),
                    server.dispatcher.replies_of()[0].1,
                ),
                old(server).status_of() is Running && server.process.status_of() is Running
                    && server.dispatcher.replies_of().len() == 0 ==> drained.len() <= old(server).backlog().len()
                    && drained == old(server).backlog().take(drained.len() as int)
                    && server.process.backlog() == old(server).backlog().skip(
                    drained.len() as int,
                ).push(env) && handler_chain::<Envelope<B::Msg>, B::St, Dispatcher<B>>(
                    old(server).dispatcher_of(),
                    server.dispatcher,
                    old(server).state_of(),
                    server.process.state_of(),
                    drained,
                ),
                old(server).status_of() is Running && !(server.process.status_of() is Running)
                    ==> drain_failed(
                    old(server).dispatcher_of(),
                    old(server).state_of(),
                    old(server).backlog(),
                    server.process.state_of(),
                ),
                old(server).status_of() is Running && server.dispatcher.replies_of().len() == 1
                    ==> served_in_order(
                    old(server).dispatcher_of(),
                    old(server).behavior_of(),
                    old(server).state_of(),
                    old(server).backlog(),
                    msg,
                    server.process.state_of(),
                    server.dispatcher.replies_of()[0].1,
                ),
                (server.dispatcher.replies_of().len() == 0 && server.dispatcher.history_of()
                    == old(server).reply_history() && (server.process.status_of() is Running
                    ==> server.process.backlog().len() > 0 && server.process.backlog().last() == env
                    && (forall|i: int|
                    0 <= i < server.process.backlog().len() - 1 ==> (
                    #[trigger] server.process.backlog()[i]) is Cast))) || (
                server.process.status_of() is Running && server.dispatcher.replies_of().len() == 1
                    && server.dispatcher.replies_of()[0].0 == id && server.dispatcher.history_of()
                    == old(server).reply_history().push(server.dispatcher.replies_of()[0])
                    && server.process.backlog().len() == 0),
            decreases server.process.backlog().len(),
        {
            if !server.process.is_running() {
                return Err(SwErlError::MailboxClosed);
            }
            if server.dispatcher.replies.len() > 0 {
                let ghost entry1 = server.dispatcher.replies_of()[0].1;
                let ghost smid_w: B::St = choose|smid: B::St|
                    #[trigger] old(server).behavior_of().call_spec(
                        msg,
                        smid,
                        server.process.state_of(),
                        entry1,
                    );
                proof {
                    assert(has_reply(server.dispatcher.replies_of(), id));
                    lemma_first_reply_index(server.dispatcher.replies_of(), id, 0);
                }
                match take_reply(&mut server.dispatcher.replies, id) {
                    Some(res) => {
                        proof {
                            assert(old(server).behavior_of().call_spec(
                                msg,
                                smid_w,
                                server.process.state_of(),
                                res,
                            ));
                            assert(call_answered(
                                old(server).behavior_of(),
                                msg,
                                server.process.state_of(),
                                res,
                            ));
                            assert(served_in_order(
                                old(server).dispatcher_of(),
                                old(server).behavior_of(),
                                old(server).state_of(),
                                old(server).backlog(),
                                msg,
                                server.process.state_of(),
                                res,
                            ));
                        }
                        return res;
                    },
                    None => {
                        return unreached();
                    },
                }
            }
            let ghost pre: Process<Envelope<B::Msg>, B::St> = server.process;
            let ghost dpre: Dispatcher<B> = server.dispatcher;
            let _outcome = server.process.step(&mut server.dispatcher);
            proof {
                if pre.backlog().len() == 1 {
                    assert(pre.backlog().first() == env);
                    assert(server.dispatcher.replies_of()[0] == server.dispatcher.replies_of().last());
                    if old(server).status_of() is Running {
                        assert(old(server).backlog().skip(drained.len() as int) =~= Seq::<
                            Envelope<B::Msg>,
                        >::empty());
                        assert(drained =~= old(server).backlog());
                        assert(Dispatcher::<B>::effect(
                            dpre,
                            server.dispatcher,
                            pre.state_of(),
                            server.process.state_of(),
                            env,
                            outcome_err(_outcome),
                        ));
                        assert(old(server).behavior_of().call_spec(
                            msg,
                            pre.state_of(),
                            server.process.state_of(),
                            server.dispatcher.replies_of()[0].1,
                        ));
                        assert(served_in_order(
                            old(server).dispatcher_of(),
                            old(server).behavior_of(),
                            old(server).state_of(),
                            old(server).backlog(),
                            msg,
                            server.process.state_of(),
                            server.dispatcher.replies_of()[0].1,
                        ));
                    }
                }
                if pre.backlog().len() > 1 {
                    assert(pre.backlog()[0] is Cast);
                    assert(server.process.backlog().last() == pre.backlog().last());
                    assert forall|i: int| 0 <= i < server.process.backlog().len() - 1 implies (
                    #[trigger] server.process.backlog()[i]) is Cast by {
                        assert(server.process.backlog()[i] == pre.backlog()[i + 1]);
                    }
                    if old(server).status_of() is Running && !(server.process.status_of()
                        is Running) {
                        assert(_outcome is Fatal);
                        assert(pre.backlog().first() == old(server).backlog()[drained.len() as int]);
                        assert(Dispatcher::<B>::effect(
                            dpre,
                            server.dispatcher,
                            pre.state_of(),
                            server.process.state_of(),
                            old(server).backlog()[drained.len() as int],
                            outcome_err(_outcome),
                        ));
                        assert(drain_failed(
                            old(server).dispatcher_of(),
                            old(server).state_of(),
                            old(server).backlog(),
                            server.process.state_of(),
                        ));
                    }
                    if old(server).status_of() is Running {
                        lemma_handler_chain_push::<Envelope<B::Msg>, B::St, Dispatcher<B>>(
                            old(server).dispatcher_of(),
                            dpre,
                            server.dispatcher,
                            old(server).state_of(),
                            pre.state_of(),
                            server.process.state_of(),
                            drained,
                            pre.backlog().first(),
                            outcome_err(_outcome),
                        );
                        drained = drained.push(pre.backlog().first());
                        assert(drained =~= old(server).backlog().take(drained.len() as int));
                        assert(server.process.backlog() =~= old(server).backlog().skip(
                            drained.len() as int,
                        ).push(env));
                    }
                }
            }
        }
    }
}

} // verus!
