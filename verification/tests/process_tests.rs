use swerl::SwErlError;
use swerl::gen_server::{Dispatcher, Envelope, GenServerBehavior};
use swerl::mailbox::{Mailbox, RecvOutcome, SendOutcome};
use swerl::process::ProcessBuilder;

#[derive(Clone, Debug, PartialEq)]
enum TallyMsg {
    Add(u64),
    Sum(u64),
}

struct Tally;

impl GenServerBehavior for Tally {
    type Msg = TallyMsg;
    type St = u64;

    fn init(&self, _args: Option<TallyMsg>) -> Result<u64, SwErlError> {
        Ok(0)
    }

    fn handle_cast(&self, msg: TallyMsg, state: &mut u64) -> Result<(), SwErlError> {
        if let TallyMsg::Add(n) = msg {
            *state += n;
        }
        Ok(())
    }

    fn handle_call(&self, _msg: TallyMsg, state: &mut u64) -> Result<TallyMsg, SwErlError> {
        Ok(TallyMsg::Sum(*state))
    }
}

#[test]
fn spawn_with_explicit_name_keeps_it() {
    let (pid, process) = ProcessBuilder::new()
        .name("tally")
        .spawn::<Envelope<TallyMsg>, u64>(0);
    assert_eq!(pid, "tally");
    assert_eq!(process.pid().as_str(), "tally");
}

#[test]
fn spawn_without_name_generates_distinct_identifiers() {
    let (a, _pa) = ProcessBuilder::new().spawn::<Envelope<TallyMsg>, u64>(0);
    let (b, _pb) = ProcessBuilder::new().spawn::<Envelope<TallyMsg>, u64>(0);
    assert_eq!(a.len(), 36);
    assert_eq!(b.len(), 36);
    assert_ne!(a, b);
    for (i, c) in a.chars().enumerate() {
        if i == 8 || i == 13 || i == 18 || i == 23 {
            assert_eq!(c, '-');
        } else {
            assert!(c.is_ascii_hexdigit() && !c.is_ascii_uppercase());
        }
    }
}

#[test]
fn sends_beyond_capacity_suspend_and_complete_after_draining() {
    let (_pid, mut process) = ProcessBuilder::new().spawn::<Envelope<TallyMsg>, u64>(0);
    assert_eq!(process.capacity(), 100);
    for _ in 0..100 {
        let r = process.enqueue(Envelope::Cast(TallyMsg::Add(1)));
        assert_eq!(r, SendOutcome::Enqueued);
    }
    // the mailbox is at capacity: the sender is told to wait, nothing is lost
    let r = process.enqueue(Envelope::Cast(TallyMsg::Add(1)));
    assert_eq!(r, SendOutcome::Full);
    assert_eq!(process.backlog_len(), 100);
    // the process drains its backlog; the waiting sender then completes
    let mut dispatcher = Dispatcher::new(Tally);
    let (res, _handled) = process.run(&mut dispatcher);
    assert!(res.is_ok());
    assert_eq!(process.backlog_len(), 0);
    assert!(process.is_running());
    let r = process.enqueue(Envelope::Cast(TallyMsg::Add(1)));
    assert_eq!(r, SendOutcome::Enqueued);
}

#[test]
fn run_stops_cleanly_once_handles_are_gone_and_backlog_drained() {
    let (_pid, mut process) = ProcessBuilder::new().spawn::<Envelope<TallyMsg>, u64>(0);
    for _ in 0..3 {
        assert_eq!(
            process.enqueue(Envelope::Cast(TallyMsg::Add(2))),
            SendOutcome::Enqueued
        );
    }
    process.drop_handle();
    let mut dispatcher = Dispatcher::new(Tally);
    let (res, _handled) = process.run(&mut dispatcher);
    assert!(res.is_ok());
    assert!(!process.is_running());
    assert_eq!(process.backlog_len(), 0);
    // the process is destroyed: its mailbox takes nothing further
    let r = process.enqueue(Envelope::Cast(TallyMsg::Add(1)));
    assert_eq!(r, SendOutcome::Closed);
}

#[derive(Clone, Debug, PartialEq)]
struct Unit;

struct Fussy;

impl GenServerBehavior for Fussy {
    type Msg = Unit;
    type St = u64;
    fn init(&self, _args: Option<Unit>) -> Result<u64, SwErlError> {
        Ok(0)
    }
    fn handle_cast(&self, _msg: Unit, _state: &mut u64) -> Result<(), SwErlError> {
        Err(SwErlError::MailboxClosed)
    }
    fn handle_call(&self, _msg: Unit, _state: &mut u64) -> Result<Unit, SwErlError> {
        Ok(Unit)
    }
}

#[test]
fn fatal_handler_error_surfaces_from_run_and_backlog_stays() {
    let (_pid, mut process) = ProcessBuilder::new().spawn::<Envelope<Unit>, u64>(0);
    for _ in 0..4 {
        assert_eq!(
            process.enqueue(Envelope::Cast(Unit)),
            SendOutcome::Enqueued
        );
    }
    let mut dispatcher = Dispatcher::new(Fussy);
    let (res, _handled) = process.run(&mut dispatcher);
    assert!(matches!(res, Err(SwErlError::MailboxClosed)));
    assert!(!process.is_running());
    assert!(matches!(process.failure(), Some(SwErlError::MailboxClosed)));
    // the first message killed the process; the other three are never
    // processed but never discarded either
    assert_eq!(process.backlog_len(), 3);
    assert_eq!(
        process.enqueue(Envelope::Cast(Unit)),
        SendOutcome::Enqueued
    );
    assert_eq!(process.backlog_len(), 4);
}

#[test]
fn unknown_envelopes_are_ignored() {
    let (_pid, mut process) = ProcessBuilder::new().spawn::<Envelope<TallyMsg>, u64>(0);
    assert_eq!(
        process.enqueue(Envelope::Other),
        SendOutcome::Enqueued
    );
    assert_eq!(
        process.enqueue(Envelope::Cast(TallyMsg::Add(7))),
        SendOutcome::Enqueued
    );
    let mut dispatcher = Dispatcher::new(Tally);
    let (res, _handled) = process.run(&mut dispatcher);
    assert!(res.is_ok());
    assert!(process.is_running());
    assert_eq!(process.backlog_len(), 0);
}

#[test]
fn mailbox_is_first_in_first_out() {
    let mut mb: Mailbox<u64> = Mailbox::new(2);
    assert_eq!(mb.enqueue(10), SendOutcome::Enqueued);
    assert_eq!(mb.enqueue(20), SendOutcome::Enqueued);
    assert_eq!(mb.enqueue(30), SendOutcome::Full);
    assert!(matches!(mb.dequeue(), RecvOutcome::Received(10)));
    assert_eq!(mb.enqueue(30), SendOutcome::Enqueued);
    assert!(matches!(mb.dequeue(), RecvOutcome::Received(20)));
    assert!(matches!(mb.dequeue(), RecvOutcome::Received(30)));
    assert!(matches!(mb.dequeue(), RecvOutcome::Empty));
    mb.drop_sender();
    assert!(matches!(mb.dequeue(), RecvOutcome::Disconnected));
    mb.close_receiver();
    assert_eq!(mb.enqueue(40), SendOutcome::Closed);
}

#[test]
fn error_kinds_classify_recoverability() {
    assert!(SwErlError::ProcessNotFound(String::from("x")).is_recoverable());
    assert!(SwErlError::Timeout.is_recoverable());
    assert!(!SwErlError::InvalidState(String::from("x")).is_recoverable());
    assert!(!SwErlError::MailboxClosed.is_recoverable());
    assert!(!SwErlError::CastFailed(String::from("x")).is_recoverable());
}
