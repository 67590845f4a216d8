//! Binding a listener so that a socket path left behind by a dead process is
//! claimed again, while a path that a live listener holds, or that is no
//! socket at all, is never touched.
//!
//! Nothing here opens a socket. [`BindReuse`] is told what each operation
//! gave and answers with the operation to perform next, or with the result
//! of the whole procedure. The caller performs the operation and reports
//! back. Listeners and errors pass through as they are: `L` is the caller's
//! type of listener and `E` its type of error.
//!
//! The permission bits are set after the bind has succeeded. Between the two,
//! the socket has the permissions that the process's umask gives, and another
//! process may connect to it. Two processes that claim one stale path at the
//! same time may both remove it; one of them then wins the bind.

use vstd::prelude::*;
use crate::addr::SocketAddr;

verus! {

/// The classes of I/O failure that callers tell apart.
#[derive(Clone, Copy, Debug, PartialEq, Eq, Hash, Structural)]
pub enum ErrorKind {
    NotFound,
    PermissionDenied,
    ConnectionRefused,
    ConnectionReset,
    AddrInUse,
    AddrNotAvailable,
    TimedOut,
    InvalidInput,
    Other,
}

/// What the caller is asked to do.
#[derive(Clone, Copy, Debug, PartialEq, Eq, Hash, Structural)]
pub enum Action {
    /// Bind a listener to the address.
    Bind,
    /// Look at the file system entry at the path, without following links.
    Inspect,
    /// Connect to the path as a client, and drop the connection.
    Probe,
    /// Remove the file system entry at the path.
    Remove,
    /// Give the path these permission bits.
    SetMode(u32),
}

/// What an operation gave.
#[derive(Debug, PartialEq, Eq)]
pub enum Event<L, E> {
    /// [`Action::Bind`] succeeded, with this listener.
    Bound(L),
    /// [`Action::Inspect`] succeeded; the flag says whether the entry is a
    /// socket.
    Entry { socket: bool },
    /// [`Action::Probe`], [`Action::Remove`] or [`Action::SetMode`]
    /// succeeded.
    Done,
    /// The operation failed with this error, of this class.
    Failed(ErrorKind, E),
}

/// The operation whose result is awaited, with what is kept meanwhile.
#[derive(Debug, PartialEq, Eq)]
pub enum Awaiting<L, E> {
    /// The first bind.
    Bind,
    /// The inspection of the path. The error of the first bind is kept.
    Inspect(E),
    /// The probing connection. The error of the first bind is kept.
    Probe(E),
    /// The removal of the path.
    Remove,
    /// The second bind.
    Rebind,
    /// The change of the permission bits to the given ones. The listener is
    /// kept.
    SetMode(u32, L),
}

/// The state of one bind with reuse.
#[derive(Debug, PartialEq, Eq)]
pub struct BindReuse<L, E> {
    /// Whether the address is a socket path.
    pub unix: bool,
    /// The permission bits asked for.
    pub mode: Option<u32>,
    pub awaiting: Awaiting<L, E>,
}

/// How a step ends.
#[derive(Debug, PartialEq, Eq)]
pub enum Next<L, E> {
    /// The caller performs the action and reports its result to the state.
    Perform(BindReuse<L, E>, Action),
    /// The procedure is over, with this result.
    Finished(Result<L, E>),
}

impl<L, E> Awaiting<L, E> {
    /// The action whose result is awaited.
    pub open spec fn action(self) -> Action {
        match self {
            Awaiting::Bind => Action::Bind,
            Awaiting::Inspect(_) => Action::Inspect,
            Awaiting::Probe(_) => Action::Probe,
            Awaiting::Remove => Action::Remove,
            Awaiting::Rebind => Action::Bind,
            Awaiting::SetMode(m, _) => Action::SetMode(m),
        }
    }

    /// Whether the event is a possible result of the awaited operation.
    pub open spec fn answered_by(self, event: Event<L, E>) -> bool {
        match self {
            Awaiting::Bind | Awaiting::Rebind => event is Bound || event is Failed,
            Awaiting::Inspect(_) => event is Entry || event is Failed,
            _ => event is Done || event is Failed,
        }
    }
}

impl<L, E> BindReuse<L, E> {
    /// The state before anything was done: the first bind is awaited.
    pub open spec fn spec_new(unix: bool, mode: Option<u32>) -> BindReuse<L, E> {
        BindReuse { unix, mode, awaiting: Awaiting::Bind }
    }

    /// The action whose result the state awaits.
    pub open spec fn spec_pending(self) -> Action {
        self.awaiting.action()
    }

    /// The caller is to perform the action of `awaiting` next.
    pub open spec fn await_next(self, awaiting: Awaiting<L, E>) -> Next<L, E> {
        Next::Perform(BindReuse { unix: self.unix, mode: self.mode, awaiting }, awaiting.action())
    }

    /// What follows a bind that gave `listener`: the permission bits are set
    /// on a socket path if any were asked for, and else the listener is the
    /// result.
    pub open spec fn after_bound(self, listener: L) -> Next<L, E> {
        if self.unix && self.mode is Some {
            self.await_next(Awaiting::SetMode(self.mode->0, listener))
        } else {
            Next::Finished(Ok(listener))
        }
    }

    /// What follows when the awaited operation gave `event`.
    ///
    /// - A bind that succeeds is followed by [`BindReuse::after_bound`].
    /// - When the first bind fails, its error is the result, unless the
    ///   address is a socket path and the error says that it is in use:
    ///   then the path is inspected.
    /// - The inspection is followed by the probe if it found a socket. Else
    ///   the error of the first bind is the result.
    /// - The probe is followed by the removal if the connection was
    ///   refused. Else the error of the first bind is the result.
    /// - The removal is followed by the second bind.
    /// - When the removal, the second bind or the change of the permission
    ///   bits fails, its error is the result.
    /// - An event that cannot be a result of the awaited action changes
    ///   nothing.
    pub open spec fn spec_step(self, event: Event<L, E>) -> Next<L, E> {
        if !self.awaiting.answered_by(event) {
            Next::Perform(self, self.spec_pending())
        } else {
            match self.awaiting {
                Awaiting::Bind => match event {
                    Event::Failed(kind, e) => if self.unix && kind == ErrorKind::AddrInUse {
                        self.await_next(Awaiting::Inspect(e))
                    } else {
                        Next::Finished(Err(e))
                    },
                    _ => self.after_bound(event->Bound_0),
                },
                Awaiting::Inspect(first) => if event == (Event::<L, E>::Entry { socket: true }) {
                    self.await_next(Awaiting::Probe(first))
                } else {
                    Next::Finished(Err(first))
                },
                Awaiting::Probe(first) => if event is Failed && event->Failed_0
                    == ErrorKind::ConnectionRefused {
                    self.await_next(Awaiting::Remove)
                } else {
                    Next::Finished(Err(first))
                },
                Awaiting::Remove => match event {
                    Event::Failed(_, e) => Next::Finished(Err(e)),
                    _ => self.await_next(Awaiting::Rebind),
                },
                Awaiting::Rebind => match event {
                    Event::Failed(_, e) => Next::Finished(Err(e)),
                    _ => self.after_bound(event->Bound_0),
                },
                Awaiting::SetMode(_, listener) => match event {
                    Event::Failed(_, e) => Next::Finished(Err(e)),
                    _ => Next::Finished(Ok(listener)),
                },
            }
        }
    }

    /// Starts a bind with reuse on `addr`. The first action is
    /// [`Action::Bind`].
    pub fn new(addr: &SocketAddr, mode: Option<u32>) -> (r: BindReuse<L, E>)
        ensures
            r == BindReuse::<L, E>::spec_new(addr@ is Unix, mode),
            r.spec_pending() == Action::Bind,
    {
        BindReuse { unix: addr.is_unix(), mode, awaiting: Awaiting::Bind }
    }

    /// The action whose result is awaited.
    pub fn pending(&self) -> (r: Action)
        ensures
            r == self.spec_pending(),
    {
        match &self.awaiting {
            Awaiting::Bind => Action::Bind,
            Awaiting::Inspect(_) => Action::Inspect,
            Awaiting::Probe(_) => Action::Probe,
            Awaiting::Remove => Action::Remove,
            Awaiting::Rebind => Action::Bind,
            Awaiting::SetMode(m, _) => Action::SetMode(*m),
        }
    }

    fn go(unix: bool, mode: Option<u32>, awaiting: Awaiting<L, E>) -> (r: Next<L, E>)
        ensures
            r == (BindReuse::<L, E> { unix, mode, awaiting: Awaiting::Bind }).await_next(awaiting),
    {
        let state = BindReuse { unix, mode, awaiting };
        let action = state.pending();
        Next::Perform(state, action)
    }

    fn bound(unix: bool, mode: Option<u32>, listener: L) -> (r: Next<L, E>)
        ensures
            r == (BindReuse::<L, E> { unix, mode, awaiting: Awaiting::Bind }).after_bound(
                listener,
            ),
    {
        match (unix, mode) {
            (true, Some(m)) => Self::go(unix, mode, Awaiting::SetMode(m, listener)),
            _ => Next::Finished(Ok(listener)),
        }
    }

    /// Takes the result of the awaited action, and returns the action to
    /// perform next with the state that awaits its result, or the result of
    /// the procedure.
    pub fn step(self, event: Event<L, E>) -> (r: Next<L, E>)
        ensures
            r == self.spec_step(event),
    {
        let unix = self.unix;
        let mode = self.mode;
        match (self.awaiting, event) {
            (Awaiting::Bind, Event::Bound(l)) => Self::bound(unix, mode, l),
            (Awaiting::Bind, Event::Failed(kind, e)) => if unix && kind == ErrorKind::AddrInUse {
                Self::go(unix, mode, Awaiting::Inspect(e))
            } else {
                Next::Finished(Err(e))
            },
            (Awaiting::Inspect(first), Event::Entry { socket }) => if socket {
                Self::go(unix, mode, Awaiting::Probe(first))
            } else {
                Next::Finished(Err(first))
            },
            (Awaiting::Inspect(first), Event::Failed(_, _)) => Next::Finished(Err(first)),
            (Awaiting::Probe(first), Event::Failed(kind, _)) => if kind
                == ErrorKind::ConnectionRefused {
                Self::go(unix, mode, Awaiting::Remove)
            } else {
                Next::Finished(Err(first))
            },
            (Awaiting::Probe(first), Event::Done) => Next::Finished(Err(first)),
            (Awaiting::Remove, Event::Done) => Self::go(unix, mode, Awaiting::Rebind),
            (Awaiting::Remove, Event::Failed(_, e)) => Next::Finished(Err(e)),
            (Awaiting::Rebind, Event::Bound(l)) => Self::bound(unix, mode, l),
            (Awaiting::Rebind, Event::Failed(_, e)) => Next::Finished(Err(e)),
            (Awaiting::SetMode(_, l), Event::Done) => Next::Finished(Ok(l)),
            (Awaiting::SetMode(_, _), Event::Failed(_, e)) => Next::Finished(Err(e)),
            (awaiting, _) => Self::go(unix, mode, awaiting),
        }
    }
}

impl<L, E> Awaiting<L, E> {
    /// The most results that are still awaited: the awaited one and those
    /// that may follow it.
    pub open spec fn steps_left(self) -> nat {
        match self {
            Awaiting::Bind => 6,
            Awaiting::Inspect(_) => 5,
            Awaiting::Probe(_) => 4,
            Awaiting::Remove => 3,
            Awaiting::Rebind => 2,
            Awaiting::SetMode(_, _) => 1,
        }
    }
}

/// Every result of the awaited action brings the procedure nearer to its
/// end, and changes neither the kind of address nor the permission bits
/// asked for: whatever the operations give, the procedure is over after six
/// results at most.
pub proof fn lemma_steps_make_progress<L, E>(s: BindReuse<L, E>, event: Event<L, E>)
    requires
        s.awaiting.answered_by(event),
    ensures
        match s.spec_step(event) {
            Next::Finished(_) => true,
            Next::Perform(next, action) => {
                &&& next.awaiting.steps_left() < s.awaiting.steps_left()
                &&& next.unix == s.unix
                &&& next.mode == s.mode
                &&& action == next.spec_pending()
            },
        },
{
}

/// What each operation would give if it were performed. A failure is the
/// class of the error together with the error.
pub struct Findings<L, E> {
    pub bind: Result<L, (ErrorKind, E)>,
    pub entry: Result<bool, (ErrorKind, E)>,
    pub probe: Result<(), (ErrorKind, E)>,
    pub remove: Result<(), (ErrorKind, E)>,
    pub rebind: Result<L, (ErrorKind, E)>,
    pub set_mode: Result<(), (ErrorKind, E)>,
}

/// The class of the error, if the operation fails.
pub open spec fn failure<T, E>(r: Result<T, (ErrorKind, E)>) -> Option<ErrorKind> {
    match r {
        Ok(_) => None,
        Err((kind, _)) => Some(kind),
    }
}

/// The event that reports what a bind gave.
pub open spec fn bind_event<L, E>(r: Result<L, (ErrorKind, E)>) -> Event<L, E> {
    match r {
        Ok(listener) => Event::Bound(listener),
        Err((kind, e)) => Event::Failed(kind, e),
    }
}

/// The event that reports what an operation without a value gave.
pub open spec fn done_event<L, E>(r: Result<(), (ErrorKind, E)>) -> Event<L, E> {
    match r {
        Ok(_) => Event::Done,
        Err((kind, e)) => Event::Failed(kind, e),
    }
}

impl<L, E> Findings<L, E> {
    /// The event that the awaited operation gives.
    pub open spec fn reply(self, awaiting: Awaiting<L, E>) -> Event<L, E> {
        match awaiting {
            Awaiting::Bind => bind_event(self.bind),
            Awaiting::Inspect(_) => match self.entry {
                Ok(socket) => Event::Entry { socket },
                Err((kind, e)) => Event::Failed(kind, e),
            },
            Awaiting::Probe(_) => done_event(self.probe),
            Awaiting::Remove => done_event(self.remove),
            Awaiting::Rebind => bind_event(self.rebind),
            Awaiting::SetMode(_, _) => done_event(self.set_mode),
        }
    }

    /// The error of the first bind, where it fails.
    pub open spec fn first_error(self) -> E {
        match self.bind {
            Err((_, e)) => e,
            Ok(_) => arbitrary(),
        }
    }

    /// Whether the first bind fails because the address is in use.
    pub open spec fn occupied(self) -> bool {
        failure(self.bind) == Some(ErrorKind::AddrInUse)
    }

    /// Whether the entry at the path is a socket.
    pub open spec fn is_socket(self) -> bool {
        self.entry == Ok::<bool, (ErrorKind, E)>(true)
    }

    /// Whether the probing connection is refused: nobody listens.
    pub open spec fn refused(self) -> bool {
        failure(self.probe) == Some(ErrorKind::ConnectionRefused)
    }
}

/// The actions of a procedure, in order, and its result.
pub struct Course<L, E> {
    pub actions: Seq<Action>,
    pub result: Option<Result<L, E>>,
}

/// The course `c` behind the actions `before`.
pub open spec fn after<L, E>(before: Seq<Action>, c: Course<L, E>) -> Course<L, E> {
    Course { actions: before + c.actions, result: c.result }
}

/// The end of the procedure once a bind has given `listener`.
pub open spec fn settle<L, E>(unix: bool, mode: Option<u32>, f: Findings<L, E>, listener: L)
    -> Course<L, E> {
    if unix && mode is Some {
        Course {
            actions: seq![Action::SetMode(mode->0)],
            result: Some(
                match f.set_mode {
                    Ok(_) => Ok(listener),
                    Err((_, e)) => Err(e),
                },
            ),
        }
    } else {
        Course { actions: Seq::empty(), result: Some(Ok(listener)) }
    }
}

/// The whole procedure, when the operations give what `f` says.
pub open spec fn plan<L, E>(unix: bool, mode: Option<u32>, f: Findings<L, E>) -> Course<L, E> {
    match f.bind {
        Ok(listener) => after(seq![Action::Bind], settle(unix, mode, f, listener)),
        Err((_, first)) => {
            let failed = Some(Err::<L, E>(first));
            if !(unix && f.occupied()) {
                Course { actions: seq![Action::Bind], result: failed }
            } else if !f.is_socket() {
                Course { actions: seq![Action::Bind, Action::Inspect], result: failed }
            } else if !f.refused() {
                Course {
                    actions: seq![Action::Bind, Action::Inspect, Action::Probe],
                    result: failed,
                }
            } else {
                let claimed = seq![Action::Bind, Action::Inspect, Action::Probe, Action::Remove];
                match (f.remove, f.rebind) {
                    (Err((_, e)), _) => Course { actions: claimed, result: Some(Err(e)) },
                    (_, Err((_, e))) => Course {
                        actions: claimed.push(Action::Bind),
                        result: Some(Err(e)),
                    },
                    (_, Ok(listener)) => after(
                        claimed.push(Action::Bind),
                        settle(unix, mode, f, listener),
                    ),
                }
            }
        },
    }
}

/// What happens from the state `s` on when each awaited operation gives
/// what `f` says: the actions that are awaited one after the other, and the
/// result, if it is reached within `fuel` steps.
pub open spec fn run<L, E>(s: BindReuse<L, E>, f: Findings<L, E>, fuel: nat) -> Course<L, E>
    decreases fuel,
{
    if fuel == 0 {
        Course { actions: Seq::empty(), result: None }
    } else {
        after(
            seq![s.spec_pending()],
            match s.spec_step(f.reply(s.awaiting)) {
                Next::Finished(r) => Course { actions: Seq::empty(), result: Some(r) },
                Next::Perform(next, _) => run(next, f, (fuel - 1) as nat),
            },
        )
    }
}

/// The state machine performs the plan: started on any address and driven
/// with what the operations give, it asks for exactly the actions of
/// [`plan`] and ends with its result, within six steps.
pub proof fn lemma_steps_follow_plan<L, E>(unix: bool, mode: Option<u32>, f: Findings<L, E>)
    ensures
        run(BindReuse::spec_new(unix, mode), f, 6) == plan(unix, mode, f),
        plan(unix, mode, f).result is Some,
{
    reveal_with_fuel(run, 7);
    let got = run(BindReuse::spec_new(unix, mode), f, 6);
    let want = plan(unix, mode, f);
    assert(got.actions =~= want.actions);
    assert(got.result == want.result);
}

/// On an internet address the procedure is a single bind, whatever the
/// permission bits asked for: its listener or its error is the result.
pub proof fn lemma_inet_is_plain_bind<L, E>(mode: Option<u32>, f: Findings<L, E>)
    ensures
        plan(false, mode, f).actions == seq![Action::Bind],
        plan(false, mode, f).result == Some(
            match f.bind {
                Ok(listener) => Ok::<L, E>(listener),
                Err((_, e)) => Err(e),
            },
        ),
{
    assert(plan(false, mode, f).actions =~= seq![Action::Bind]);
}

/// An error of the first bind that does not say that a socket path is in
/// use is the result as it is, and nothing else is done.
pub proof fn lemma_other_errors_pass<L, E>(unix: bool, mode: Option<u32>, f: Findings<L, E>)
    requires
        f.bind is Err,
        !f.occupied(),
    ensures
        plan(unix, mode, f).actions == seq![Action::Bind],
        plan(unix, mode, f).result == Some(Err::<L, E>(f.first_error())),
{
}

/// A path that a live listener holds is not claimed: when the first bind
/// finds the address in use and the probing connection is not refused, the
/// result is the error of the first bind, and nothing is removed.
pub proof fn lemma_live_listener_is_kept<L, E>(unix: bool, mode: Option<u32>, f: Findings<L, E>)
    requires
        f.occupied(),
        !f.refused(),
    ensures
        plan(unix, mode, f).result == Some(Err::<L, E>(f.first_error())),
        !plan(unix, mode, f).actions.contains(Action::Remove),
{
}

/// A path that is no socket is not claimed: when the first bind finds the
/// address in use and the entry cannot be read or is no socket, the result
/// is the error of the first bind, and the path is neither probed nor
/// removed.
pub proof fn lemma_other_file_is_kept<L, E>(mode: Option<u32>, f: Findings<L, E>)
    requires
        f.occupied(),
        !f.is_socket(),
    ensures
        plan(true, mode, f).result == Some(Err::<L, E>(f.first_error())),
        plan(true, mode, f).actions == seq![Action::Bind, Action::Inspect],
{
}

/// A stale path is claimed: when the first bind finds the address in use,
/// the entry is a socket that refuses connections, and the removal and the
/// second bind succeed, the path is removed once and bound again. The
/// procedure then ends as it does after a first bind that succeeds, with
/// the listener of the second bind.
pub proof fn lemma_stale_path_is_claimed<L, E>(mode: Option<u32>, f: Findings<L, E>)
    requires
        f.occupied(),
        f.is_socket(),
        f.refused(),
        f.remove is Ok,
        f.rebind is Ok,
    ensures
        plan(true, mode, f) == after(
            seq![Action::Bind, Action::Inspect, Action::Probe, Action::Remove, Action::Bind],
            settle(true, mode, f, f.rebind->Ok_0),
        ),
        mode is None || f.set_mode is Ok ==> plan(true, mode, f).result == Some(
            Ok::<L, E>(f.rebind->Ok_0),
        ),
{
    assert(seq![Action::Bind, Action::Inspect, Action::Probe, Action::Remove].push(Action::Bind)
        =~= seq![Action::Bind, Action::Inspect, Action::Probe, Action::Remove, Action::Bind]);
}

/// Something is removed only where the first bind found a socket path in
/// use, the entry is a socket, and the probing connection was refused.
pub proof fn lemma_removal_needs_stale_socket<L, E>(
    unix: bool,
    mode: Option<u32>,
    f: Findings<L, E>,
)
    requires
        plan(unix, mode, f).actions.contains(Action::Remove),
    ensures
        unix,
        f.occupied(),
        f.is_socket(),
        f.refused(),
{
}

/// The permission bits are set on a socket path only, after a bind has
/// succeeded, and as the last operation: whenever bits are asked for on a
/// socket path and the procedure gives a listener, the last action was to
/// set exactly those bits, it succeeded, and the action before it was the
/// bind that gave the listener.
pub proof fn lemma_mode_is_set_last<L, E>(
    unix: bool,
    mode: Option<u32>,
    f: Findings<L, E>,
    m: u32,
)
    ensures
        plan(unix, mode, f).actions.contains(Action::SetMode(m)) ==> unix && mode == Some(m),
        unix && mode == Some(m) && plan(unix, mode, f).result->0 is Ok ==> {
            let actions = plan(unix, mode, f).actions;
            &&& actions.len() >= 2
            &&& actions[actions.len() - 1] == Action::SetMode(m)
            &&& actions[actions.len() - 2] == Action::Bind
            &&& f.set_mode is Ok
        },
{
}


} // verus!
