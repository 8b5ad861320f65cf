use component_system::component::{Component, ComponentRuntime, Handler};
use component_system::executor::{
    settle, ComponentExecutor, DeliveryError, Envelope, LoopStep, Reply, Response,
};
use component_system::mailbox::{Mailbox, SendError};
use component_system::stream::{bridge_step, continues_after, stream_loop, BridgeAction, BridgeEvent};
use component_system::system::{Scheduler, StartError, Started, System};

struct TestComponent {
    queue_size: usize,
    counter: usize,
    caught_panic: Option<String>,
    runtime: ComponentRuntime,
}

impl TestComponent {
    fn new(queue_size: usize) -> Self {
        TestComponent { queue_size, counter: 0, caught_panic: None, runtime: ComponentRuntime::Inherit }
    }
}

impl Component for TestComponent {
    fn get_name(&self) -> String {
        "Test component".to_string()
    }

    fn queue_size(&self) -> usize {
        self.queue_size
    }

    fn runtime(&self) -> ComponentRuntime {
        self.runtime
    }

    fn on_handler_panic(&mut self, message: String) {
        self.caught_panic = Some(message);
    }
}

impl Handler<usize, usize> for TestComponent {
    fn handle(&mut self, message: usize) -> Result<usize, String> {
        if message == 0 {
            return Err("Invalid input".to_string());
        }
        self.counter += message;
        Ok(self.counter)
    }
}

fn start(system: &mut System, queue_size: usize) -> Started<TestComponent, usize> {
    match system.start_component(TestComponent::new(queue_size)) {
        Ok(s) => s,
        Err(e) => panic!("start failed: {:?}", e),
    }
}

fn executor(system: &mut System, queue_size: usize) -> ComponentExecutor<TestComponent, usize> {
    start(system, queue_size).executor
}

fn request(
    exec: &mut ComponentExecutor<TestComponent, usize>,
    system: &mut System,
    id: u64,
    message: usize,
) -> Reply<usize> {
    if let Err(_) = exec.post(system, Envelope { message, request: Some(id) }) {
        return Reply::ComponentStopped;
    }
    let responses: Vec<Response<usize>> = exec.run_until_idle(system);
    let mut found = None;
    for r in responses {
        if r.request == id {
            found = Some(r.reply);
        }
    }
    found.expect("every request is answered")
}

#[test]
fn response_types() {
    let mut system = System::new();
    let mut started = start(&mut system, 10);
    assert!(matches!(request(&mut started.executor, &mut system, 1, 1), Reply::Value(1)));
    assert!(matches!(request(&mut started.executor, &mut system, 2, 1), Reply::Value(2)));
}

#[test]
fn catches_handler_panic_with_hook() {
    let mut system = System::new();
    let mut started = start(&mut system, 10);
    let reply = request(&mut started.executor, &mut system, 1, 0);
    assert!(matches!(reply, Reply::HandlerPanicked(ref m) if m == "Invalid input"));
    assert_eq!(
        started.executor.component().caught_panic.clone().unwrap(),
        "Invalid input".to_string()
    );
    assert!(matches!(request(&mut started.executor, &mut system, 2, 1), Reply::Value(1)));
}

#[test]
fn counting_component_survives_a_failure() {
    let mut system = System::new();
    let mut started = start(&mut system, 10);
    assert!(matches!(request(&mut started.executor, &mut system, 1, 1), Reply::Value(1)));
    assert!(matches!(request(&mut started.executor, &mut system, 2, 1), Reply::Value(2)));
    assert!(matches!(request(&mut started.executor, &mut system, 3, 0), Reply::HandlerPanicked(_)));
    assert_eq!(started.executor.component().caught_panic.as_deref(), Some("Invalid input"));
    assert!(matches!(request(&mut started.executor, &mut system, 4, 1), Reply::Value(3)));
}

#[test]
fn messages_are_handled_in_send_order() {
    let mut system = System::new();
    let mut exec = executor(&mut system, 10);
    for (i, m) in [5usize, 1, 7].iter().enumerate() {
        assert!(exec.post(&system, Envelope { message: *m, request: Some(i as u64) }).is_ok());
    }
    let responses = exec.run_until_idle(&mut system);
    let seen: Vec<(u64, usize)> = responses
        .into_iter()
        .map(|r| match r.reply {
            Reply::Value(v) => (r.request, v),
            _ => panic!("unexpected reply"),
        })
        .collect();
    assert_eq!(seen, vec![(0, 5), (1, 6), (2, 13)]);
}

#[test]
fn requests_after_stop_fail_and_loop_ends() {
    let mut system = System::new();
    let mut exec = executor(&mut system, 4);
    assert!(exec.post(&system, Envelope { message: 1, request: Some(7) }).is_ok());
    assert!(exec.send(&system, 2).is_ok());
    exec.cancel();
    match exec.post(&system, Envelope { message: 3, request: Some(8) }) {
        Err(DeliveryError::ComponentStopped(env)) => assert_eq!(env.message, 3),
        _ => panic!("post after stop must fail"),
    }
    let responses = exec.run_until_idle(&mut system);
    assert_eq!(responses.len(), 1);
    assert_eq!(responses[0].request, 7);
    assert!(matches!(responses[0].reply, Reply::ComponentStopped));
    assert!(exec.is_stopped());
    assert_eq!(exec.component().counter, 0);
}

#[test]
fn stop_twice_is_stop_once() {
    let mut system = System::new();
    let mut exec = executor(&mut system, 2);
    exec.cancel();
    exec.cancel();
    assert!(matches!(exec.next(&mut system), LoopStep::Stopped { .. }));
    assert!(matches!(exec.next(&mut system), LoopStep::Exited));
    assert!(matches!(exec.next(&mut system), LoopStep::Exited));

    assert!(system.join());

    let mut system = System::new();
    let mut a = start(&mut system, 3);
    let mut b = start(&mut system, 3);
    system.stop();
    system.stop();
    assert!(system.is_cancelled(a.id));
    assert!(system.is_cancelled(b.id));
    assert!(!system.join());
    assert!(matches!(a.executor.next(&mut system), LoopStep::Stopped { .. }));
    assert!(!system.join());
    assert!(matches!(b.executor.next(&mut system), LoopStep::Stopped { .. }));
    assert!(system.join());
    system.stop();
    assert!(system.join());
    assert!(matches!(a.executor.next(&mut system), LoopStep::Exited));
}

#[test]
fn system_stop_reaches_every_component() {
    let mut system = System::new();
    let mut a = start(&mut system, 4);
    let mut b = start(&mut system, 4);
    assert!(a.executor.post(&system, Envelope { message: 5, request: Some(1) }).is_ok());
    system.stop();
    match b.executor.send(&system, 3) {
        Err(DeliveryError::ComponentStopped(env)) => assert_eq!(env.message, 3),
        _ => panic!("send after a bulk stop must fail"),
    }
    assert!(matches!(request(&mut b.executor, &mut system, 2, 1), Reply::ComponentStopped));
    let responses = a.executor.run_until_idle(&mut system);
    assert_eq!(responses.len(), 1);
    assert_eq!(responses[0].request, 1);
    assert!(matches!(responses[0].reply, Reply::ComponentStopped));
    assert_eq!(a.executor.component().counter, 0);
    assert!(a.executor.is_stopped());
    assert!(!system.join());
    assert!(matches!(b.executor.next(&mut system), LoopStep::Stopped { .. }));
    assert!(system.join());
}

#[test]
fn caught_panic_reaches_the_hook() {
    let mut system = System::new();
    let mut started = start(&mut system, 2);
    let r: Option<Response<usize>> = started.executor.contain_panic(Some(9), "Invalid input".to_string());
    let r = r.unwrap();
    assert_eq!(r.request, 9);
    assert!(matches!(r.reply, Reply::HandlerPanicked(ref m) if m == "Invalid input"));
    assert_eq!(started.executor.component().caught_panic.as_deref(), Some("Invalid input"));
    let quiet: Option<Response<usize>> = started.executor.contain_panic(None, "later".to_string());
    assert!(quiet.is_none());
    assert_eq!(started.executor.component().caught_panic.as_deref(), Some("later"));
    assert!(matches!(request(&mut started.executor, &mut system, 10, 2), Reply::Value(2)));
}

#[test]
fn loop_ends_when_senders_are_gone() {
    let mut system = System::new();
    let mut exec = executor(&mut system, 2);
    assert!(exec.send(&system, 4).is_ok());
    exec.close_senders();
    let responses = exec.run_until_idle(&mut system);
    assert!(responses.is_empty());
    assert!(exec.is_stopped());
    assert_eq!(exec.component().counter, 4);
}

#[test]
fn full_mailbox_refuses() {
    let mut system = System::new();
    let mut exec = executor(&mut system, 1);
    assert!(exec.send(&system, 1).is_ok());
    match exec.send(&system, 2) {
        Err(DeliveryError::MailboxFull(env)) => assert_eq!(env.message, 2),
        _ => panic!("mailbox should be full"),
    }
    assert_eq!(exec.queued_len(), 1);
}

#[test]
fn mailbox_keeps_order_and_closes() {
    let mut mb: Mailbox<u32> = Mailbox::new(2);
    assert!(mb.try_send(10).is_ok());
    assert!(mb.try_send(20).is_ok());
    assert!(matches!(mb.try_send(30), Err(SendError::Full(30))));
    assert_eq!(mb.recv(), Some(10));
    assert!(mb.try_send(30).is_ok());
    assert_eq!(mb.close(), vec![20, 30]);
    assert!(mb.closed());
    assert!(matches!(mb.try_send(40), Err(SendError::Closed(40))));
    assert_eq!(mb.recv(), None);
    assert_eq!(mb.capacity(), 2);
}

#[test]
fn zero_queue_size_is_refused() {
    let mut system = System::new();
    let r: Result<Started<TestComponent, usize>, StartError> = system.start_component(TestComponent::new(0));
    assert!(matches!(r, Err(StartError::ZeroQueueSize)));
    let mut dedicated = TestComponent::new(3);
    dedicated.runtime = ComponentRuntime::Dedicated;
    let s: Started<TestComponent, usize> = system.start_component(dedicated).ok().unwrap();
    assert_eq!(s.id, 0);
    assert_eq!(s.runtime, ComponentRuntime::Dedicated);
}

#[test]
fn stream_bridge_feeds_a_counter() {
    let mut system = System::new();
    let mut started = start(&mut system, 10);
    let (forwarded, rest) = stream_loop(vec![2usize, 3, 4], &mut started.executor, &system);
    assert_eq!(forwarded, 3);
    assert!(rest.is_empty());
    let responses = started.executor.run_until_idle(&mut system);
    assert!(responses.is_empty());
    assert_eq!(started.executor.component().counter, 9);
}

#[test]
fn stream_bridge_pauses_when_full_and_ends_on_stop() {
    let mut system = System::new();
    let mut exec = executor(&mut system, 2);
    let (forwarded, rest) = stream_loop(vec![1usize, 2, 3], &mut exec, &system);
    assert_eq!(forwarded, 2);
    assert_eq!(rest, vec![3]);
    assert!(exec.run_until_idle::<usize>(&mut system).is_empty());
    assert_eq!(exec.component().counter, 3);
    let (forwarded, rest) = stream_loop(rest, &mut exec, &system);
    assert_eq!((forwarded, rest.len()), (1, 0));
    assert!(exec.run_until_idle::<usize>(&mut system).is_empty());
    assert_eq!(exec.component().counter, 6);
    let mut exec2 = executor(&mut system, 2);
    exec2.cancel();
    let (forwarded, rest) = stream_loop(vec![1usize], &mut exec2, &system);
    assert_eq!(forwarded, 0);
    assert!(rest.is_empty());
    system.stop();
    let (forwarded, rest) = stream_loop(vec![4usize, 5], &mut exec, &system);
    assert_eq!(forwarded, 0);
    assert!(rest.is_empty());
    assert_eq!(exec2.queued_len(), 0);
}

#[test]
fn bridge_decisions() {
    assert!(matches!(bridge_step(BridgeEvent::Item(5u8)), BridgeAction::Forward(5)));
    assert!(matches!(bridge_step::<u8>(BridgeEvent::Exhausted), BridgeAction::Terminate));
    assert!(matches!(bridge_step::<u8>(BridgeEvent::Cancelled), BridgeAction::Terminate));
    let ok: Result<(), DeliveryError<u8>> = Ok(());
    assert!(continues_after(&ok));
    let refused: Result<(), DeliveryError<u8>> =
        Err(DeliveryError::ComponentStopped(Envelope { message: 1, request: None }));
    assert!(!continues_after(&refused));
}

#[test]
fn settle_outcomes() {
    let s = settle::<u32>(Some(4), Ok(9));
    assert!(s.panic.is_none());
    let r = s.response.unwrap();
    assert_eq!(r.request, 4);
    assert!(matches!(r.reply, Reply::Value(9)));
    let f = settle::<u32>(Some(5), Err("boom".to_string()));
    assert_eq!(f.panic.as_deref(), Some("boom"));
    assert!(matches!(f.response.unwrap().reply, Reply::HandlerPanicked(ref m) if m == "boom"));
    let quiet = settle::<u32>(None, Err("x".to_string()));
    assert!(quiet.response.is_none());
    assert_eq!(quiet.panic.as_deref(), Some("x"));
}

#[test]
fn scheduler_registry() {
    let mut s = Scheduler::new();
    assert!(s.join());
    let a = s.register();
    let b = s.register();
    assert_eq!((a, b), (0, 1));
    assert_eq!(s.len(), 2);
    assert!(!s.is_cancelled(a));
    s.mark_finished(b);
    assert!(!s.join());
    s.stop();
    assert!(s.is_cancelled(a) && s.is_cancelled(b));
    s.mark_finished(a);
    assert!(s.join());
}
