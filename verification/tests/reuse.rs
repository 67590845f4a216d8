use multisock::Action;
use multisock::Awaiting;
use multisock::BindReuse;
use multisock::ErrorKind;
use multisock::Event;
use multisock::Next;
use multisock::SocketAddr;

type Ev = Event<&'static str, &'static str>;

fn unix() -> SocketAddr {
    SocketAddr::parse("unix:/tmp/listener.sock").unwrap()
}

fn inet() -> SocketAddr {
    SocketAddr::parse("127.0.0.1:0").unwrap()
}

/// Drives the procedure with the given results. Returns every action asked
/// for and the result, if the procedure came to its end.
fn run(
    addr: &SocketAddr,
    mode: Option<u32>,
    events: Vec<Ev>,
) -> (Vec<Action>, Option<Result<&'static str, &'static str>>) {
    let mut state = BindReuse::new(addr, mode);
    let mut actions = vec![state.pending()];
    for event in events {
        match state.step(event) {
            Next::Perform(next, action) => {
                assert_eq!(action, next.pending());
                actions.push(action);
                state = next;
            }
            Next::Finished(result) => return (actions, Some(result)),
        }
    }
    (actions, None)
}

fn in_use() -> Ev {
    Event::Failed(ErrorKind::AddrInUse, "in use")
}

fn refused() -> Ev {
    Event::Failed(ErrorKind::ConnectionRefused, "refused")
}

fn socket() -> Ev {
    Event::Entry { socket: true }
}

const CLAIM: [Action; 5] =
    [Action::Bind, Action::Inspect, Action::Probe, Action::Remove, Action::Bind];

#[test]
fn first_bind_succeeds() {
    assert_eq!(run(&unix(), None, vec![Event::Bound("a")]), (vec![Action::Bind], Some(Ok("a"))));
    assert_eq!(run(&inet(), None, vec![Event::Bound("a")]), (vec![Action::Bind], Some(Ok("a"))));
    assert_eq!(
        run(&inet(), Some(0o600), vec![Event::Bound("a")]),
        (vec![Action::Bind], Some(Ok("a")))
    );
}

#[test]
fn mode_is_applied_after_the_bind() {
    assert_eq!(
        run(&unix(), Some(0o600), vec![Event::Bound("a"), Event::Done]),
        (vec![Action::Bind, Action::SetMode(0o600)], Some(Ok("a")))
    );
    assert_eq!(
        run(&unix(), Some(0o600), vec![Event::Bound("a")]),
        (vec![Action::Bind, Action::SetMode(0o600)], None)
    );
    assert_eq!(
        run(
            &unix(),
            Some(0o600),
            vec![Event::Bound("a"), Event::Failed(ErrorKind::PermissionDenied, "chmod")]
        ),
        (vec![Action::Bind, Action::SetMode(0o600)], Some(Err("chmod")))
    );
    let mut actions = CLAIM.to_vec();
    actions.push(Action::SetMode(0o660));
    assert_eq!(
        run(
            &unix(),
            Some(0o660),
            vec![in_use(), socket(), refused(), Event::Done, Event::Bound("b"), Event::Done]
        ),
        (actions, Some(Ok("b")))
    );
}

#[test]
fn live_listener_keeps_its_path() {
    let actions = vec![Action::Bind, Action::Inspect, Action::Probe];
    assert_eq!(
        run(&unix(), None, vec![in_use(), socket(), Event::Done]),
        (actions.clone(), Some(Err("in use")))
    );
    assert_eq!(
        run(
            &unix(),
            Some(0o600),
            vec![in_use(), socket(), Event::Failed(ErrorKind::PermissionDenied, "denied")]
        ),
        (actions.clone(), Some(Err("in use")))
    );
    assert_eq!(
        run(&unix(), None, vec![in_use(), socket(), Event::Failed(ErrorKind::TimedOut, "slow")]),
        (actions, Some(Err("in use")))
    );
}

#[test]
fn dead_listener_is_replaced() {
    assert_eq!(
        run(&unix(), None, vec![in_use(), socket(), refused(), Event::Done, Event::Bound("b")]),
        (CLAIM.to_vec(), Some(Ok("b")))
    );
}

#[test]
fn other_file_is_left_alone() {
    let actions = vec![Action::Bind, Action::Inspect];
    assert_eq!(
        run(&unix(), None, vec![in_use(), Event::Entry { socket: false }]),
        (actions.clone(), Some(Err("in use")))
    );
    assert_eq!(
        run(&unix(), Some(0o600), vec![in_use(), Event::Failed(ErrorKind::NotFound, "gone")]),
        (actions, Some(Err("in use")))
    );
}

#[test]
fn errors_of_each_step_are_handed_on() {
    assert_eq!(
        run(&unix(), None, vec![Event::Failed(ErrorKind::PermissionDenied, "denied")]),
        (vec![Action::Bind], Some(Err("denied")))
    );
    assert_eq!(
        run(
            &unix(),
            None,
            vec![in_use(), socket(), refused(), Event::Failed(ErrorKind::PermissionDenied, "rm")]
        ),
        (CLAIM[..4].to_vec(), Some(Err("rm")))
    );
    assert_eq!(
        run(
            &unix(),
            None,
            vec![
                in_use(),
                socket(),
                refused(),
                Event::Done,
                Event::Failed(ErrorKind::AddrInUse, "again")
            ]
        ),
        (CLAIM.to_vec(), Some(Err("again")))
    );
}

#[test]
fn inet_address_in_use_is_an_error() {
    assert_eq!(run(&inet(), Some(0o600), vec![in_use()]), (vec![Action::Bind], Some(Err("in use"))));
}

#[test]
fn events_that_answer_nothing_are_ignored() {
    assert_eq!(
        run(&unix(), None, vec![socket(), Event::Done]),
        (vec![Action::Bind, Action::Bind, Action::Bind], None)
    );
    assert_eq!(
        run(&unix(), None, vec![in_use(), Event::Done, Event::Bound("x"), socket(), socket()]),
        (vec![Action::Bind, Action::Inspect, Action::Inspect, Action::Inspect, Action::Probe, Action::Probe], None)
    );
    assert_eq!(
        run(&unix(), Some(1), vec![Event::Bound("a"), Event::Bound("b"), socket(), Event::Done]),
        (vec![Action::Bind, Action::SetMode(1), Action::SetMode(1), Action::SetMode(1)], Some(Ok("a")))
    );
}

#[test]
fn state_holds_what_is_kept() {
    let state: BindReuse<u8, u16> = BindReuse::new(&unix(), Some(0o600));
    assert_eq!(state, BindReuse { unix: true, mode: Some(0o600), awaiting: Awaiting::Bind });
    let state = match state.step(Event::Failed(ErrorKind::AddrInUse, 98)) {
        Next::Perform(state, Action::Inspect) => state,
        other => panic!("{:?}", other),
    };
    assert_eq!(state.awaiting, Awaiting::Inspect(98));
    let state = match state.step(Event::Entry { socket: true }) {
        Next::Perform(state, Action::Probe) => state,
        other => panic!("{:?}", other),
    };
    assert_eq!(state.awaiting, Awaiting::Probe(98));
    assert_eq!(state.step(Event::Done), Next::Finished(Err(98)));
    let state: BindReuse<u8, u16> = BindReuse::new(&inet(), Some(0o600));
    assert!(!state.unix);
    assert_eq!(state.step(Event::Bound(3)), Next::Finished(Ok(3)));
}
