use swerl::SwErlError;
use swerl::gen_server::{GenServer, GenServerBehavior};

#[derive(Clone, Debug, PartialEq)]
enum CounterMsg {
    Increment(u64),
    Get,
    Value(u64),
    Boom,
    Flaky,
}

struct Counter;

impl GenServerBehavior for Counter {
    type Msg = CounterMsg;
    type St = u64;

    fn init(&self, args: Option<CounterMsg>) -> Result<u64, SwErlError> {
        match args {
            Some(CounterMsg::Increment(n)) => Ok(n),
            Some(CounterMsg::Boom) => Err(SwErlError::InvalidState(String::from("bad start"))),
            _ => Ok(0),
        }
    }

    fn handle_cast(&self, msg: CounterMsg, state: &mut u64) -> Result<(), SwErlError> {
        match msg {
            CounterMsg::Increment(n) => {
                *state += n;
                Ok(())
            }
            CounterMsg::Boom => Err(SwErlError::InvalidState(String::from("boom"))),
            CounterMsg::Flaky => Err(SwErlError::ProcessNotFound(String::from("missing"))),
            _ => Ok(()),
        }
    }

    fn handle_call(&self, msg: CounterMsg, state: &mut u64) -> Result<CounterMsg, SwErlError> {
        match msg {
            CounterMsg::Get => Ok(CounterMsg::Value(*state)),
            CounterMsg::Boom => Err(SwErlError::InvalidState(String::from("bad call"))),
            _ => Ok(CounterMsg::Value(0)),
        }
    }
}

#[test]
fn counter_five_casts_then_get() {
    let mut server = GenServer::start(Counter, None).unwrap();
    for _ in 0..5 {
        GenServer::cast(&mut server, CounterMsg::Increment(1)).unwrap();
    }
    let reply = GenServer::call(&mut server, CounterMsg::Get).unwrap();
    assert_eq!(reply, CounterMsg::Value(5));
}

#[test]
fn init_args_seed_the_state() {
    let mut server = GenServer::start(Counter, Some(CounterMsg::Increment(41))).unwrap();
    GenServer::cast(&mut server, CounterMsg::Increment(1)).unwrap();
    let reply = GenServer::call(&mut server, CounterMsg::Get).unwrap();
    assert_eq!(reply, CounterMsg::Value(42));
}

#[test]
fn init_failure_aborts_startup() {
    let r = GenServer::start(Counter, Some(CounterMsg::Boom));
    assert!(matches!(r, Err(SwErlError::InvalidState(_))));
}

#[test]
fn call_after_termination_is_mailbox_closed() {
    let mut server = GenServer::start(Counter, None).unwrap();
    GenServer::cast(&mut server, CounterMsg::Increment(3)).unwrap();
    server.shutdown();
    assert!(!server.is_running());
    let r = GenServer::call(&mut server, CounterMsg::Get);
    assert!(matches!(r, Err(SwErlError::MailboxClosed)));
    let r2 = GenServer::cast(&mut server, CounterMsg::Increment(1));
    assert!(matches!(r2, Err(SwErlError::MailboxClosed)));
}

#[test]
fn call_failure_propagates_and_server_survives() {
    let mut server = GenServer::start(Counter, None).unwrap();
    let r = GenServer::call(&mut server, CounterMsg::Boom);
    assert!(matches!(r, Err(SwErlError::InvalidState(_))));
    // the reply channel carried exactly one result; the server keeps running
    assert!(server.is_running());
    let reply = GenServer::call(&mut server, CounterMsg::Get).unwrap();
    assert_eq!(reply, CounterMsg::Value(0));
}

#[test]
fn recoverable_cast_failure_keeps_the_server_running() {
    let mut server = GenServer::start(Counter, None).unwrap();
    GenServer::cast(&mut server, CounterMsg::Flaky).unwrap();
    GenServer::cast(&mut server, CounterMsg::Increment(2)).unwrap();
    let reply = GenServer::call(&mut server, CounterMsg::Get).unwrap();
    assert_eq!(reply, CounterMsg::Value(2));
    assert!(server.is_running());
}

#[test]
fn fatal_cast_stops_processing_but_keeps_the_backlog() {
    let mut server = GenServer::start(Counter, None).unwrap();
    GenServer::cast(&mut server, CounterMsg::Boom).unwrap();
    // the fatal failure surfaces while draining towards this call
    let r = GenServer::call(&mut server, CounterMsg::Get);
    assert!(matches!(r, Err(SwErlError::MailboxClosed)));
    assert!(!server.is_running());
    assert!(matches!(server.failure(), Some(SwErlError::InvalidState(_))));
    // the unprocessed call envelope stays queued; nothing is discarded
    assert_eq!(server.backlog_len(), 1);
    // further sends still enqueue, up to capacity
    while server.backlog_len() < server.capacity() {
        GenServer::cast(&mut server, CounterMsg::Increment(1)).unwrap();
    }
    assert_eq!(server.backlog_len(), server.capacity());
    assert_eq!(server.capacity(), 100);
}

#[test]
fn server_pid_is_a_generated_identifier() {
    let server = GenServer::start(Counter, None).unwrap();
    let other = GenServer::start(Counter, None).unwrap();
    let pid = server.pid();
    assert_eq!(pid.len(), 36);
    for (i, c) in pid.chars().enumerate() {
        if i == 8 || i == 13 || i == 18 || i == 23 {
            assert_eq!(c, '-');
        } else {
            assert!(c.is_ascii_hexdigit() && !c.is_ascii_uppercase());
        }
    }
    assert_ne!(server.pid(), other.pid());
}

#[derive(Clone, Debug, PartialEq)]
enum RecMsg {
    Push(u64),
    Get,
    List(Vec<u64>),
}

struct Recorder;

impl GenServerBehavior for Recorder {
    type Msg = RecMsg;
    type St = Vec<u64>;

    fn init(&self, _args: Option<RecMsg>) -> Result<Vec<u64>, SwErlError> {
        Ok(Vec::new())
    }

    fn handle_cast(&self, msg: RecMsg, state: &mut Vec<u64>) -> Result<(), SwErlError> {
        if let RecMsg::Push(n) = msg {
            state.push(n);
        }
        Ok(())
    }

    fn handle_call(&self, _msg: RecMsg, state: &mut Vec<u64>) -> Result<RecMsg, SwErlError> {
        Ok(RecMsg::List(state.clone()))
    }
}

#[test]
fn casts_are_observed_in_send_order() {
    let mut server = GenServer::start(Recorder, None).unwrap();
    let sent = vec![9, 2, 7, 7, 1, 30, 4];
    for n in &sent {
        GenServer::cast(&mut server, RecMsg::Push(*n)).unwrap();
    }
    let reply = GenServer::call(&mut server, RecMsg::Get).unwrap();
    assert_eq!(reply, RecMsg::List(sent));
}

#[test]
fn each_call_resolves_with_its_own_reply() {
    let mut server = GenServer::start(Counter, None).unwrap();
    GenServer::cast(&mut server, CounterMsg::Increment(1)).unwrap();
    let a = GenServer::call(&mut server, CounterMsg::Get).unwrap();
    GenServer::cast(&mut server, CounterMsg::Increment(1)).unwrap();
    let b = GenServer::call(&mut server, CounterMsg::Get).unwrap();
    assert_eq!(a, CounterMsg::Value(1));
    assert_eq!(b, CounterMsg::Value(2));
}
