use crate::component::{Component, Handler};
use crate::mailbox::{Mailbox, SendError};
use crate::system::{finish_if, System};
use vstd::prelude::*;

verus! {

/// A message, with the identifier of the request waiting for its reply, if any.
pub struct Envelope<M> {
    pub message: M,
    pub request: Option<u64>,
}

/// How a reply slot is fulfilled.
pub enum Reply<R> {
    Value(R),
    HandlerPanicked(String),
    ComponentStopped,
}

/// The reply owed to one request.
pub struct Response<R> {
    pub request: u64,
    pub reply: Reply<R>,
}

/// Why a message was not posted; the envelope is handed back.
pub enum DeliveryError<M> {
    /// The mailbox is at capacity.
    MailboxFull(Envelope<M>),
    /// Cancellation was triggered or the loop has exited.
    ComponentStopped(Envelope<M>),
}

/// What the executor loop does next.
pub enum LoopStep<M> {
    /// Hand this envelope to the handler.
    Deliver(Envelope<M>),
    /// Nothing is queued: wait for a message or for cancellation.
    Idle,
    /// The loop stops now; the listed requests are answered `ComponentStopped`.
    Stopped { abandoned: Vec<u64> },
    /// The loop had already stopped.
    Exited,
}

/// The result of one handler invocation, as the executor settles it.
pub struct Settled<R> {
    /// The reply to send, when the message was a request.
    pub response: Option<Response<R>>,
    /// The diagnostic to pass to the component's panic hook, after a failure.
    pub panic: Option<String>,
}

/// The abstract state of an executor.
pub ghost struct ExecutorView<M> {
    pub queued: Seq<Envelope<M>>,
    pub capacity: nat,
    pub cancelled: bool,
    pub senders_gone: bool,
    pub stopped: bool,
}

/// The requests among queued envelopes, oldest first.
pub open spec fn pending_requests<M>(q: Seq<Envelope<M>>) -> Seq<u64>
    decreases q.len(),
{
    if q.len() == 0 {
        Seq::empty()
    } else {
        let rest = pending_requests(q.drop_last());
        match q.last().request {
            Some(id) => rest.push(id),
            None => rest,
        }
    }
}

/// Whether a message posted in state `v` is accepted.
pub open spec fn accepts<M>(v: ExecutorView<M>) -> bool {
    !v.cancelled && !v.stopped && v.queued.len() < v.capacity
}

/// The state after posting `env`.
pub open spec fn post_view<M>(v: ExecutorView<M>, env: Envelope<M>) -> ExecutorView<M> {
    if accepts(v) {
        ExecutorView { queued: v.queued.push(env), ..v }
    } else {
        v
    }
}

/// The state once a cancellation recorded in the registry is taken over.
pub open spec fn synced<M>(v: ExecutorView<M>, registry_cancelled: bool) -> ExecutorView<M> {
    ExecutorView { cancelled: v.cancelled || registry_cancelled, ..v }
}

/// The state after cancellation is triggered.
pub open spec fn cancel_view<M>(v: ExecutorView<M>) -> ExecutorView<M> {
    ExecutorView { cancelled: true, ..v }
}

/// The state after one turn of the loop.
pub open spec fn next_view<M>(v: ExecutorView<M>) -> ExecutorView<M> {
    if v.stopped {
        v
    } else if v.cancelled {
        ExecutorView { queued: Seq::empty(), stopped: true, ..v }
    } else if v.queued.len() > 0 {
        ExecutorView { queued: v.queued.drop_first(), ..v }
    } else if v.senders_gone {
        ExecutorView { stopped: true, ..v }
    } else {
        v
    }
}

/// What one turn of the loop yields in state `v`.
pub open spec fn next_step_is<M>(v: ExecutorView<M>, r: LoopStep<M>) -> bool {
    if v.stopped {
        r is Exited
    } else if v.cancelled {
        match r {
            LoopStep::Stopped { abandoned } => abandoned@ == pending_requests(v.queued),
            _ => false,
        }
    } else if v.queued.len() > 0 {
        r == LoopStep::Deliver(v.queued[0])
    } else if v.senders_gone {
        match r {
            LoopStep::Stopped { abandoned } => abandoned@.len() == 0,
            _ => false,
        }
    } else {
        r is Idle
    }
}

/// How the outcome of a handler invocation is settled for `request`.
pub open spec fn settled_as<R>(request: Option<u64>, outcome: Result<R, String>, s: Settled<R>) -> bool {
    &&& s.panic == match outcome {
        Ok(_) => None,
        Err(msg) => Some(msg),
    }
    &&& s.response == match request {
        None => None,
        Some(id) => Some(
            Response {
                request: id,
                reply: match outcome {
                    Ok(v) => Reply::Value(v),
                    Err(msg) => Reply::HandlerPanicked(msg),
                },
            },
        ),
    }
}

/// Settles a handler invocation: the request, if any, gets the value or the
/// failure, and a failure is passed to the panic hook. The loop goes on either way.
pub fn settle<R>(request: Option<u64>, outcome: Result<R, String>) -> (r: Settled<R>)
    ensures
        settled_as(request, outcome, r),
{
    match outcome {
        Ok(v) => {
            let response = match request {
                None => None,
                Some(id) => Some(Response { request: id, reply: Reply::Value(v) }),
            };
            Settled { response, panic: None }
        },
        Err(msg) => {
            let response = match request {
                None => None,
                Some(id) => Some(Response { request: id, reply: Reply::HandlerPanicked(msg.clone()) }),
            };
            Settled { response, panic: Some(msg) }
        },
    }
}

/// The state after posting each of `envs`, in order.
pub open spec fn post_all<M>(v: ExecutorView<M>, envs: Seq<Envelope<M>>) -> ExecutorView<M>
    decreases envs.len(),
{
    if envs.len() == 0 {
        v
    } else {
        post_all(post_view(v, envs[0]), envs.drop_first())
    }
}

/// The envelopes handed to the handler over at most `n` turns of the loop.
pub open spec fn delivered<M>(v: ExecutorView<M>, n: nat) -> Seq<Envelope<M>>
    decreases n,
{
    if n == 0 || v.stopped || v.cancelled || v.queued.len() == 0 {
        Seq::empty()
    } else {
        seq![v.queued[0]] + delivered(next_view(v), (n - 1) as nat)
    }
}

proof fn lemma_post_all_appends<M>(v: ExecutorView<M>, envs: Seq<Envelope<M>>)
    requires
        !v.cancelled,
        !v.stopped,
        v.queued.len() + envs.len() <= v.capacity,
    ensures
        post_all(v, envs) == (ExecutorView { queued: v.queued + envs, ..v }),
    decreases envs.len(),
{
    if envs.len() == 0 {
        assert(v.queued + envs =~= v.queued);
    } else {
        let w = post_view(v, envs[0]);
        lemma_post_all_appends(w, envs.drop_first());
        assert(w.queued + envs.drop_first() =~= v.queued + envs);
    }
}

proof fn lemma_delivered_all<M>(v: ExecutorView<M>)
    requires
        !v.cancelled,
        !v.stopped,
    ensures
        delivered(v, v.queued.len()) == v.queued,
    decreases v.queued.len(),
{
    if v.queued.len() == 0 {
        assert(delivered(v, 0) =~= v.queued);
    } else {
        let w = next_view(v);
        lemma_delivered_all(w);
        assert(seq![v.queued[0]] + w.queued =~= v.queued);
    }
}

/// Messages posted by one sender are handed to the handler in the order they
/// were posted, after those already waiting, one per turn of the loop.
pub proof fn lemma_delivery_in_send_order<M>(v: ExecutorView<M>, envs: Seq<Envelope<M>>)
    requires
        !v.cancelled,
        !v.stopped,
        v.queued.len() + envs.len() <= v.capacity,
    ensures
        delivered(post_all(v, envs), v.queued.len() + envs.len()) == v.queued + envs,
{
    lemma_post_all_appends(v, envs);
    lemma_delivered_all(post_all(v, envs));
}

/// After cancellation every post is refused, the next turn stops the loop, and
/// every later turn finds it stopped and changes nothing.
pub proof fn lemma_stop_refuses_and_ends<M>(v: ExecutorView<M>, env: Envelope<M>)
    ensures
        !accepts(cancel_view(v)),
        post_view(cancel_view(v), env) == cancel_view(v),
        next_view(cancel_view(v)).stopped,
        !accepts(next_view(cancel_view(v))),
        next_view(next_view(cancel_view(v))) == next_view(cancel_view(v)),
        next_step_is(next_view(cancel_view(v)), LoopStep::<M>::Exited),
{
}

/// Cancelling twice is cancelling once, and a turn of a stopped loop returns at
/// once with no change.
pub proof fn lemma_stop_idempotent<M>(v: ExecutorView<M>)
    ensures
        cancel_view(cancel_view(v)) == cancel_view(v),
        v.stopped ==> next_view(v) == v && next_step_is(v, LoopStep::<M>::Exited),
{
}

/// A handler failure answers its request with the failure and hands the message
/// to the panic hook; the loop is unchanged, so a later request is still
/// accepted and delivered.
pub proof fn lemma_alive_after_failure<R, M>(
    v: ExecutorView<M>,
    id: u64,
    msg: String,
    s: Settled<R>,
    env: Envelope<M>,
)
    requires
        !v.cancelled,
        !v.stopped,
        v.queued.len() == 0,
        v.capacity > 0,
        settled_as(Some(id), Err::<R, String>(msg), s),
    ensures
        s.response == Some(Response::<R> { request: id, reply: Reply::HandlerPanicked(msg) }),
        s.panic == Some(msg),
        accepts(v),
        next_step_is(post_view(v, env), LoopStep::Deliver(env)),
{
    assert(post_view(v, env).queued[0] == env);
}

/// The request identifiers that `rs` answer, in order.
pub open spec fn response_ids<R>(rs: Seq<Response<R>>) -> Seq<u64> {
    rs.map_values(|x: Response<R>| x.request)
}

proof fn lemma_pending_requests_append<M>(a: Seq<Envelope<M>>, b: Seq<Envelope<M>>)
    ensures
        pending_requests(a + b) == pending_requests(a) + pending_requests(b),
    decreases b.len(),
{
    if b.len() == 0 {
        assert(a + b =~= a);
        assert(pending_requests(a) + pending_requests(b) =~= pending_requests(a));
    } else {
        lemma_pending_requests_append(a, b.drop_last());
        assert((a + b).drop_last() =~= a + b.drop_last());
        match b.last().request {
            Some(id) => {
                assert(pending_requests(a) + pending_requests(b.drop_last()).push(id) =~= (
                pending_requests(a) + pending_requests(b.drop_last())).push(id));
            },
            None => {},
        }
    }
}

/// The mailbox-draining loop of one component, which owns the component state.
pub struct ComponentExecutor<C, M> {
    component: C,
    mailbox: Mailbox<Envelope<M>>,
    cancelled: bool,
    senders_gone: bool,
    stopped: bool,
    id: usize,
}

impl<C, M> ComponentExecutor<C, M> {
    /// The identifier of this component's entry in the registry that started it.
    pub closed spec fn registry_id(&self) -> nat {
        self.id as nat
    }

    pub closed spec fn view(&self) -> ExecutorView<M> {
        ExecutorView {
            queued: self.mailbox.queued(),
            capacity: self.mailbox.cap(),
            cancelled: self.cancelled,
            senders_gone: self.senders_gone,
            stopped: self.stopped,
        }
    }

    pub closed spec fn wf(&self) -> bool {
        &&& self.mailbox.wf()
        &&& self.mailbox.is_closed() == self.stopped
        &&& self.stopped ==> self.mailbox.queued().len() == 0
    }

    /// A well-formed executor has room for at least one message, holds no
    /// more than its capacity, and has nothing queued once stopped.
    pub proof fn lemma_wf_view(&self)
        requires
            self.wf(),
        ensures
            self.view().capacity > 0,
            self.view().queued.len() <= self.view().capacity,
            self.view().stopped ==> self.view().queued.len() == 0,
    {
    }

    pub(crate) fn new(component: C, capacity: usize, id: usize) -> (r: Self)
        requires
            capacity > 0,
        ensures
            r.wf(),
            r.registry_id() == id,
            r.view() == (ExecutorView::<M> {
                queued: Seq::empty(),
                capacity: capacity as nat,
                cancelled: false,
                senders_gone: false,
                stopped: false,
            }),
    {
        ComponentExecutor {
            component,
            mailbox: Mailbox::new(capacity),
            cancelled: false,
            senders_gone: false,
            stopped: false,
            id,
        }
    }

    pub fn id(&self) -> (r: usize)
        ensures
            r == self.registry_id(),
    {
        self.id
    }

    /// Takes over a cancellation triggered through the registry.
    pub fn observe(&mut self, system: &System)
        requires
            old(self).wf(),
            old(self).registry_id() < system.entries().len(),
        ensures
            final(self).wf(),
            final(self).registry_id() == old(self).registry_id(),
            final(self).view() == synced(old(self).view(), system.entries()[old(self).registry_id() as int].cancelled),
    {
        if system.is_cancelled(self.id) {
            self.cancelled = true;
        }
    }

    pub fn is_cancelled(&self) -> (r: bool)
        ensures
            r == self.view().cancelled,
    {
        self.cancelled
    }

    pub fn is_stopped(&self) -> (r: bool)
        ensures
            r == self.view().stopped,
    {
        self.stopped
    }

    pub fn queued_len(&self) -> (r: usize)
        requires
            self.wf(),
        ensures
            r == self.view().queued.len(),
    {
        self.mailbox.len()
    }

    pub fn component(&self) -> &C {
        &self.component
    }

    fn post_local(&mut self, env: Envelope<M>) -> (r: Result<(), DeliveryError<M>>)
        requires
            old(self).wf(),
        ensures
            final(self).wf(),
            final(self).registry_id() == old(self).registry_id(),
            final(self).view() == post_view(old(self).view(), env),
            accepts(old(self).view()) ==> r is Ok,
            (old(self).view().cancelled || old(self).view().stopped) ==> r == Err::<
                (),
                DeliveryError<M>,
            >(DeliveryError::ComponentStopped(env)),
            !(old(self).view().cancelled || old(self).view().stopped) && !accepts(old(self).view())
                ==> r == Err::<(), DeliveryError<M>>(DeliveryError::MailboxFull(env)),
    {
        if self.cancelled || self.stopped {
            return Err(DeliveryError::ComponentStopped(env));
        }
        match self.mailbox.try_send(env) {
            Ok(()) => Ok(()),
            Err(SendError::Full(e)) => Err(DeliveryError::MailboxFull(e)),
            Err(SendError::Closed(e)) => Err(DeliveryError::ComponentStopped(e)),
        }
    }

    /// Triggers cancellation; doing so again changes nothing.
    pub fn cancel(&mut self)
        requires
            old(self).wf(),
        ensures
            final(self).wf(),
            final(self).registry_id() == old(self).registry_id(),
            final(self).view() == cancel_view(old(self).view()),
    {
        self.cancelled = true;
    }

    /// Records that every sender is gone: once the queue is empty the loop ends.
    pub fn close_senders(&mut self)
        requires
            old(self).wf(),
        ensures
            final(self).wf(),
            final(self).registry_id() == old(self).registry_id(),
            final(self).view() == (ExecutorView { senders_gone: true, ..old(self).view() }),
    {
        self.senders_gone = true;
    }

    fn next_local(&mut self) -> (r: LoopStep<M>)
        requires
            old(self).wf(),
        ensures
            final(self).wf(),
            final(self).registry_id() == old(self).registry_id(),
            final(self).view() == next_view(old(self).view()),
            next_step_is(old(self).view(), r),
    {
        if self.stopped {
            return LoopStep::Exited;
        }
        if self.cancelled {
            let dropped = self.mailbox.close();
            self.stopped = true;
            let abandoned = requests_of(&dropped);
            return LoopStep::Stopped { abandoned };
        }
        match self.mailbox.recv() {
            Some(env) => LoopStep::Deliver(env),
            None => {
                if self.senders_gone {
                    let _ = self.mailbox.close();
                    assert(self.mailbox.queued() =~= old(self).mailbox.queued());
                    self.stopped = true;
                    LoopStep::Stopped { abandoned: Vec::new() }
                } else {
                    LoopStep::Idle
                }
            },
        }
    }

    /// Runs the handler on one delivered envelope and settles it; after a failure
    /// the panic hook is called and the component stays alive.
    pub fn invoke<R>(&mut self, env: Envelope<M>) -> (r: Option<Response<R>>)
        where
            C: Handler<M, R>,
        requires
            old(self).wf(),
        ensures
            final(self).wf(),
            final(self).registry_id() == old(self).registry_id(),
            final(self).view() == old(self).view(),
            r is Some <==> env.request is Some,
            r matches Some(resp) ==> Some(resp.request) == env.request && !(resp.reply is ComponentStopped),
    {
        let request = env.request;
        let outcome = self.component.handle(env.message);
        let s = settle(request, outcome);
        match s.panic {
            Some(msg) => self.component.on_handler_panic(msg),
            None => {},
        }
        s.response
    }

    fn drain_local<R>(&mut self) -> (r: Vec<Response<R>>)
        where
            C: Handler<M, R>,
        requires
            old(self).wf(),
        ensures
            final(self).wf(),
            final(self).registry_id() == old(self).registry_id(),
            !old(self).view().cancelled ==> forall|i: int|
                0 <= i < r@.len() ==> !(#[trigger] r@[i].reply is ComponentStopped),
            final(self).view().queued.len() == 0,
            final(self).view().capacity == old(self).view().capacity,
            final(self).view().cancelled == old(self).view().cancelled,
            final(self).view().senders_gone == old(self).view().senders_gone,
            final(self).view().stopped == (old(self).view().stopped || old(self).view().cancelled
                || old(self).view().senders_gone),
            response_ids(r@) == pending_requests(old(self).view().queued),
            old(self).view().cancelled ==> forall|i: int|
                0 <= i < r@.len() ==> #[trigger] r@[i].reply is ComponentStopped,
    {
        let ghost v0 = self.view();
        let ghost v0_id = self.registry_id();
        let mut out: Vec<Response<R>> = Vec::new();
        let mut done = false;
        while !done
            invariant
                self.wf(),
                self.view().capacity == v0.capacity,
                self.view().cancelled == v0.cancelled,
                self.view().senders_gone == v0.senders_gone,
                response_ids(out@) + pending_requests(self.view().queued) == pending_requests(
                    v0.queued,
                ),
                done ==> self.view().queued.len() == 0 && self.view().stopped == (v0.stopped
                    || v0.cancelled || v0.senders_gone),
                !done ==> self.view().stopped == v0.stopped,
                !done && v0.cancelled ==> out@.len() == 0,
                v0.cancelled ==> forall|i: int|
                    0 <= i < out@.len() ==> #[trigger] out@[i].reply is ComponentStopped,
                !v0.cancelled ==> forall|i: int|
                    0 <= i < out@.len() ==> !(#[trigger] out@[i].reply is ComponentStopped),
                self.registry_id() == v0_id,
            decreases self.view().queued.len() + if done {
                0int
            } else {
                1int
            },
        {
            let ghost before = self.view();
            match self.next_local() {
                LoopStep::Deliver(env) => {
                    proof {
                        assert(before.queued =~= seq![env] + self.view().queued);
                        lemma_pending_requests_append(seq![env], self.view().queued);
                        assert(seq![env].drop_last() =~= Seq::<Envelope<M>>::empty());
                        assert(seq![env].last() == env);
                        assert(pending_requests(Seq::<Envelope<M>>::empty()) == Seq::<u64>::empty());
                    }
                    let resp = self.invoke(env);
                    match resp {
                        Some(x) => {
                            proof {
                                assert(response_ids(out@.push(x)) =~= response_ids(out@).push(
                                    x.request,
                                ));
                                assert(pending_requests(seq![env]) =~= seq![x.request]);
                            }
                            out.push(x);
                        },
                        None => {
                            assert(pending_requests(seq![env]) =~= Seq::<u64>::empty());
                        },
                    }
                    proof {
                        assert(response_ids(out@) + pending_requests(self.view().queued)
                            =~= pending_requests(v0.queued));
                    }
                },
                LoopStep::Stopped { abandoned } => {
                    let mut i: usize = 0;
                    let ghost base = out@;
                    while i < abandoned.len()
                        invariant
                            i <= abandoned@.len(),
                            out@ == base + Seq::new(
                                i as nat,
                                |j: int|
                                    Response::<R> {
                                        request: abandoned@[j],
                                        reply: Reply::ComponentStopped,
                                    },
                            ),
                        decreases abandoned@.len() - i,
                    {
                        out.push(Response { request: abandoned[i], reply: Reply::ComponentStopped });
                        proof {
                            assert(out@ =~= base + Seq::new(
                                (i + 1) as nat,
                                |j: int|
                                    Response::<R> {
                                        request: abandoned@[j],
                                        reply: Reply::ComponentStopped,
                                    },
                            ));
                        }
                        i = i + 1;
                    }
                    proof {
                        assert(response_ids(out@) =~= response_ids(base) + abandoned@);
                        assert(response_ids(out@) + pending_requests(self.view().queued)
                            =~= response_ids(out@));
                    }
                    done = true;
                },
                _ => {
                    proof {
                        assert(before.queued.len() == 0);
                        assert(pending_requests(before.queued) =~= Seq::<u64>::empty());
                    }
                    done = true;
                },
            }
        }
        out
    }

    /// Posts an envelope; refused once cancellation was triggered, here or
    /// through the registry, or while the mailbox is full.
    pub fn post(&mut self, system: &System, env: Envelope<M>) -> (r: Result<(), DeliveryError<M>>)
        requires
            old(self).wf(),
            old(self).registry_id() < system.entries().len(),
        ensures
            final(self).wf(),
            final(self).registry_id() == old(self).registry_id(),
            ({
                let v = synced(old(self).view(), system.entries()[old(self).registry_id() as int].cancelled);
                &&& final(self).view() == post_view(v, env)
                &&& accepts(v) ==> r is Ok
                &&& (v.cancelled || v.stopped) ==> r == Err::<(), DeliveryError<M>>(
                    DeliveryError::ComponentStopped(env),
                )
                &&& !(v.cancelled || v.stopped) && !accepts(v) ==> r == Err::<(), DeliveryError<M>>(
                    DeliveryError::MailboxFull(env),
                )
            }),
    {
        self.observe(system);
        self.post_local(env)
    }

    /// Posts a message with no reply slot.
    pub fn send(&mut self, system: &System, message: M) -> (r: Result<(), DeliveryError<M>>)
        requires
            old(self).wf(),
            old(self).registry_id() < system.entries().len(),
        ensures
            final(self).wf(),
            final(self).registry_id() == old(self).registry_id(),
            ({
                let v = synced(old(self).view(), system.entries()[old(self).registry_id() as int].cancelled);
                &&& final(self).view() == post_view(v, Envelope { message, request: None })
                &&& r is Ok <==> accepts(v)
                &&& (v.cancelled || v.stopped) ==> r == Err::<(), DeliveryError<M>>(
                    DeliveryError::ComponentStopped(Envelope { message, request: None }),
                )
                &&& !(v.cancelled || v.stopped) && !accepts(v) ==> r == Err::<(), DeliveryError<M>>(
                    DeliveryError::MailboxFull(Envelope { message, request: None }),
                )
            }),
    {
        self.post(system, Envelope { message, request: None })
    }

    /// One turn of the loop: cancellation (its own or the registry's) first,
    /// then the oldest message, then the end of all senders. When the loop
    /// stops, its registry entry is marked finished.
    pub fn next(&mut self, system: &mut System) -> (r: LoopStep<M>)
        requires
            old(self).wf(),
            old(self).registry_id() < old(system).entries().len(),
        ensures
            final(self).wf(),
            final(self).registry_id() == old(self).registry_id(),
            ({
                let v = synced(
                    old(self).view(),
                    old(system).entries()[old(self).registry_id() as int].cancelled,
                );
                &&& final(self).view() == next_view(v)
                &&& next_step_is(v, r)
                &&& final(system).entries() == finish_if(
                    old(system).entries(),
                    old(self).registry_id() as int,
                    next_view(v).stopped,
                )
            }),
    {
        self.observe(system);
        let r = self.next_local();
        if self.stopped {
            system.mark_finished(self.id);
        }
        r
    }

    /// Settles a handler invocation that panicked instead of returning: the
    /// panic hook gets the diagnostic and the request, if any, the failure.
    pub fn contain_panic<R>(&mut self, request: Option<u64>, message: String) -> (r: Option<Response<R>>)
        where
            C: Component,
        requires
            old(self).wf(),
        ensures
            final(self).wf(),
            final(self).registry_id() == old(self).registry_id(),
            final(self).view() == old(self).view(),
            r == match request {
                None => None,
                Some(id) => Some(Response::<R> { request: id, reply: Reply::HandlerPanicked(message) }),
            },
    {
        let s = settle::<R>(request, Err(message));
        match s.panic {
            Some(msg) => self.component.on_handler_panic(msg),
            None => {},
        }
        s.response
    }

    /// Runs the loop until nothing is queued or it stops: each delivered request
    /// is answered with its handler's outcome, and once cancellation is observed
    /// every request still queued is answered `ComponentStopped`. When the loop
    /// stops, its registry entry is marked finished.
    pub fn run_until_idle<R>(&mut self, system: &mut System) -> (r: Vec<Response<R>>)
        where
            C: Handler<M, R>,
        requires
            old(self).wf(),
            old(self).registry_id() < old(system).entries().len(),
        ensures
            final(self).wf(),
            final(self).registry_id() == old(self).registry_id(),
            ({
                let v = synced(
                    old(self).view(),
                    old(system).entries()[old(self).registry_id() as int].cancelled,
                );
                &&& final(self).view().queued.len() == 0
                &&& final(self).view().capacity == v.capacity
                &&& final(self).view().cancelled == v.cancelled
                &&& final(self).view().senders_gone == v.senders_gone
                &&& final(self).view().stopped == (v.stopped || v.cancelled || v.senders_gone)
                &&& response_ids(r@) == pending_requests(v.queued)
                &&& v.cancelled ==> forall|i: int|
                    0 <= i < r@.len() ==> #[trigger] r@[i].reply is ComponentStopped
                &&& !v.cancelled ==> forall|i: int|
                    0 <= i < r@.len() ==> !(#[trigger] r@[i].reply is ComponentStopped)
                &&& final(system).entries() == finish_if(
                    old(system).entries(),
                    old(self).registry_id() as int,
                    final(self).view().stopped,
                )
            }),
    {
        self.observe(system);
        let r = self.drain_local();
        if self.stopped {
            system.mark_finished(self.id);
        }
        r
    }
}

/// The request identifiers among `envs`, oldest first.
fn requests_of<M>(envs: &Vec<Envelope<M>>) -> (r: Vec<u64>)
    ensures
        r@ == pending_requests(envs@),
{
    let mut out: Vec<u64> = Vec::new();
    let mut i: usize = 0;
    while i < envs.len()
        invariant
            i <= envs@.len(),
            out@ == pending_requests(envs@.take(i as int)),
        decreases envs@.len() - i,
    {
        assert(envs@.take(i as int + 1).drop_last() =~= envs@.take(i as int));
        match envs[i].request {
            Some(id) => out.push(id),
            None => {},
        }
        i = i + 1;
    }
    assert(envs@.take(i as int) =~= envs@);
    out
}

} // verus!
