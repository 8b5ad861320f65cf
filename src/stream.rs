use crate::executor::{accepts, synced, ComponentExecutor, DeliveryError, Envelope, ExecutorView};
use crate::system::System;
use vstd::prelude::*;

verus! {

/// What the bridge observed while waiting.
pub enum BridgeEvent<M> {
    /// The target component's cancellation was triggered.
    Cancelled,
    /// The source produced an item.
    Item(M),
    /// The source has no more items.
    Exhausted,
}

/// What the bridge does next.
pub enum BridgeAction<M> {
    /// Send this item to the target, with no reply slot.
    Forward(M),
    /// End the bridge task.
    Terminate,
}

/// Decides the bridge's next action: an item is forwarded, anything else ends it.
pub fn bridge_step<M>(event: BridgeEvent<M>) -> (r: BridgeAction<M>)
    ensures
        match event {
            BridgeEvent::Item(m) => r == BridgeAction::Forward(m),
            _ => r is Terminate,
        },
{
    match event {
        BridgeEvent::Item(m) => BridgeAction::Forward(m),
        _ => BridgeAction::Terminate,
    }
}

/// Whether the bridge goes on after a send: any refusal interrupts it.
pub fn continues_after<M>(sent: &Result<(), DeliveryError<M>>) -> (r: bool)
    ensures
        r == sent is Ok,
{
    sent.is_ok()
}

/// Items as the envelopes the bridge posts for them.
pub open spec fn as_sends<M>(items: Seq<M>) -> Seq<Envelope<M>> {
    items.map_values(|m: M| Envelope { message: m, request: None })
}

/// Runs the bridge from a finite source to `target`: items are posted in order
/// until the source is exhausted, cancellation (the target's own or the
/// registry's) is observed, or the target refuses a post. Returns how many
/// items were delivered, and the items still to send when the bridge paused on
/// a full mailbox (backpressure: the caller sends them once the target has
/// drained); when it terminated, nothing is handed back.
pub fn stream_loop<C, M>(items: Vec<M>, target: &mut ComponentExecutor<C, M>, system: &System) -> (r: (usize, Vec<M>))
    requires
        old(target).wf(),
        old(target).registry_id() < system.entries().len(),
    ensures
        final(target).wf(),
        final(target).registry_id() == old(target).registry_id(),
        r.0 <= items@.len(),
        ({
            let v = synced(
                old(target).view(),
                system.entries()[old(target).registry_id() as int].cancelled,
            );
            &&& final(target).view() == (ExecutorView {
                queued: v.queued + as_sends(items@.take(r.0 as int)),
                ..v
            })
            &&& r.0 < items@.len() ==> !accepts(final(target).view())
            &&& v.cancelled || v.stopped ==> r.0 == 0
            &&& r.1@ == if r.0 < items@.len() && !v.cancelled && !v.stopped {
                items@.skip(r.0 as int)
            } else {
                Seq::empty()
            }
        }),
{
    let ghost all = items@;
    target.observe(system);
    let ghost start = target.view();
    let n: usize = items.len();
    let mut rest = items;
    let mut sent: usize = 0;
    while rest.len() > 0
        invariant
            target.wf(),
            all == items@,
            all.len() == n,
            start == synced(
                old(target).view(),
                system.entries()[old(target).registry_id() as int].cancelled,
            ),
            target.registry_id() == old(target).registry_id(),
            old(target).registry_id() < system.entries().len(),
            start.cancelled || start.stopped ==> sent == 0,
            sent + rest@.len() == all.len(),
            rest@ == all.skip(sent as int),
            target.view() == (ExecutorView {
                queued: start.queued + as_sends(all.take(sent as int)),
                ..start
            }),
        decreases rest@.len(),
    {
        if target.is_cancelled() {
            return (sent, Vec::new());
        }
        let m = rest.remove(0);
        let ghost before = target.view();
        let res = target.send(system, m);
        if !continues_after(&res) {
            assert(before == target.view());
            match res {
                Err(DeliveryError::MailboxFull(env)) => {
                    rest.insert(0, env.message);
                    assert(rest@ =~= all.skip(sent as int));
                    return (sent, rest);
                },
                _ => {
                    return (sent, Vec::new());
                },
            }
        }
        proof {
            assert(all[sent as int] == m);
            assert(as_sends(all.take(sent as int + 1)) =~= as_sends(all.take(sent as int)).push(
                Envelope { message: m, request: None },
            ));
            assert(start.queued + as_sends(all.take(sent as int + 1)) =~= before.queued.push(
                Envelope { message: m, request: None },
            ));
            assert(rest@ =~= all.skip(sent as int + 1));
        }
        sent = sent + 1;
    }
    (sent, Vec::new())
}

} // verus!
