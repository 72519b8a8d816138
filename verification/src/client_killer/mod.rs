//! Closing clients in escalating steps: a graceful close request, then
//! `SIGTERM` once that has been ignored for a while, then `SIGKILL`.
use std::time::Instant;

use vstd::prelude::*;

use crate::order::ClientOrd;
use crate::signal::{delivered_in_order, kill_process, Delivery, ForceKillError, Refusal, SignalKind};
use crate::text::{dec_int, fmt_i64, str_eq};
use crate::timing::{
    instant_now, longer_than_secs, measured, nanos_since, read_from_clock, same_instant, NANOS_PER_SEC,
};

pub mod hyprland;

verus! {

/// What to do to a client next.
#[derive(Clone, Copy, Debug, PartialEq, Eq)]
pub enum KillAction {
    /// Ask the compositor to close the client's window.
    Graceful,
    /// Send `SIGTERM`.
    Sigterm,
    /// Send `SIGKILL`.
    Sigkill,
}

/// How far the closing of a client has gone, with the time of the last step.
#[derive(Clone, Copy, Debug, PartialEq, Eq, PartialOrd, Ord)]
pub enum KillStatus {
    Alive,
    GracefulSent(Instant),
    TermSent(Instant),
    KillSent,
}

/// Seconds a client gets to close after the graceful request, before `SIGTERM`.
pub const SIGTERM_TIMEOUT_SECS: u64 = 15;

/// Seconds a client gets to exit after `SIGTERM`, before `SIGKILL`.
pub const SIGKILL_TIMEOUT_SECS: u64 = 30;

impl KillStatus {
    /// The step reached: 0 alive, 1 graceful close sent, 2 `SIGTERM` sent,
    /// 3 `SIGKILL` sent.
    pub open spec fn stage(self) -> nat {
        match self {
            KillStatus::Alive => 0,
            KillStatus::GracefulSent(_) => 1,
            KillStatus::TermSent(_) => 2,
            KillStatus::KillSent => 3,
        }
    }

    /// The step after `stage`; the last step is final.
    pub open spec fn next_stage(stage: nat) -> nat {
        if stage < 3 {
            stage + 1
        } else {
            3
        }
    }

    /// The action due once `elapsed_nanos` have passed since the last step.
    pub open spec fn action_after(self, elapsed_nanos: int) -> Option<KillAction> {
        match self {
            KillStatus::Alive => Some(KillAction::Graceful),
            KillStatus::GracefulSent(_) => if elapsed_nanos > SIGTERM_TIMEOUT_SECS * NANOS_PER_SEC {
                Some(KillAction::Sigterm)
            } else {
                None
            },
            KillStatus::TermSent(_) => if elapsed_nanos > SIGKILL_TIMEOUT_SECS * NANOS_PER_SEC {
                Some(KillAction::Sigkill)
            } else {
                None
            },
            KillStatus::KillSent => None,
        }
    }

    /// `elapsed_nanos` is a reading of the time since the last step: read
    /// from the clock against the step's time, or 0 for a status without one.
    pub open spec fn measured_for(self, elapsed_nanos: int) -> bool {
        match self {
            KillStatus::GracefulSent(at) => measured(at, elapsed_nanos),
            KillStatus::TermSent(at) => measured(at, elapsed_nanos),
            _ => elapsed_nanos == 0,
        }
    }

    /// The actions `poll` may return in this status, whatever the time.
    pub open spec fn may_poll(self, action: Option<KillAction>) -> bool {
        exists|elapsed_nanos: int| elapsed_nanos >= 0 && action == self.action_after(elapsed_nanos)
    }

    /// The status once the next step has been taken at time `now`: the
    /// graceful request and `SIGTERM` are stamped with `now`.
    pub open spec fn next_status(self, now: Instant) -> KillStatus {
        match self {
            KillStatus::Alive => KillStatus::GracefulSent(now),
            KillStatus::GracefulSent(_) => KillStatus::TermSent(now),
            KillStatus::TermSent(_) => KillStatus::KillSent,
            KillStatus::KillSent => KillStatus::KillSent,
        }
    }

    /// The status once the next step has been taken at time `now`.
    pub fn update_at(self, now: Instant) -> (next: Self)
        ensures
            next == self.next_status(now),
    {
        match self {
            KillStatus::Alive => KillStatus::GracefulSent(now),
            KillStatus::GracefulSent(_) => KillStatus::TermSent(now),
            KillStatus::TermSent(_) => KillStatus::KillSent,
            KillStatus::KillSent => KillStatus::KillSent,
        }
    }

    /// The status once the next step has been taken; a new step is stamped
    /// with the time of this call.
    pub fn update(self) -> (next: Self)
        ensures
            next.stage() == Self::next_stage(self.stage()),
            exists|now: Instant| next == self.next_status(now),
            (self is Alive || self is GracefulSent) ==> exists|now: Instant|
                read_from_clock(now) && next == #[trigger] self.next_status(now),
    {
        match self {
            KillStatus::Alive => {
                let now = instant_now().instant();
                self.update_at(now)
            },
            KillStatus::GracefulSent(_) => {
                let now = instant_now().instant();
                self.update_at(now)
            },
            _ => {
                let ghost any: Instant = vstd::pervasive::arbitrary();
                assert(KillStatus::KillSent == self.next_status(any));
                KillStatus::KillSent
            },
        }
    }

    /// Nanoseconds since the last step; a status without a time reads 0.
    pub fn elapsed_nanos(&self) -> (r: u128)
        ensures
            (self is Alive || self is KillSent) ==> r == 0,
            self.measured_for(r as int),
    {
        match self {
            KillStatus::GracefulSent(at) => {
                let reading = nanos_since(at);
                let n = reading.nanos();
                assert(measured(*at, n as int));
                n
            },
            KillStatus::TermSent(at) => {
                let reading = nanos_since(at);
                let n = reading.nanos();
                assert(measured(*at, n as int));
                n
            },
            _ => 0,
        }
    }

    /// The action due once `elapsed_nanos` have passed since the last step.
    pub fn poll_after(&self, elapsed_nanos: u128) -> (r: Option<KillAction>)
        ensures
            r == self.action_after(elapsed_nanos as int),
    {
        match self {
            KillStatus::Alive => Some(KillAction::Graceful),
            KillStatus::GracefulSent(_) => {
                if longer_than_secs(elapsed_nanos, SIGTERM_TIMEOUT_SECS) {
                    Some(KillAction::Sigterm)
                } else {
                    None
                }
            },
            KillStatus::TermSent(_) => {
                if longer_than_secs(elapsed_nanos, SIGKILL_TIMEOUT_SECS) {
                    Some(KillAction::Sigkill)
                } else {
                    None
                }
            },
            KillStatus::KillSent => None,
        }
    }

    /// The action due now, if any.
    pub fn poll(&self) -> (r: Option<KillAction>)
        ensures
            self.may_poll(r),
            exists|elapsed_nanos: int|
                self.measured_for(elapsed_nanos) && r == #[trigger] self.action_after(elapsed_nanos),
    {
        let elapsed = self.elapsed_nanos();
        let r = self.poll_after(elapsed);
        assert(r == self.action_after(elapsed as int));
        r
    }

    /// The client may be saving its work: the graceful request went out more
    /// than 5 seconds (`elapsed_nanos`) ago.
    pub open spec fn shows_saving(self, elapsed_nanos: int) -> bool {
        self is GracefulSent && elapsed_nanos > 5 * NANOS_PER_SEC
    }

    /// The client may be hanging: `SIGTERM` went out more than 3 seconds
    /// (`elapsed_nanos`) ago.
    pub open spec fn shows_hanging(self, elapsed_nanos: int) -> bool {
        self is TermSent && elapsed_nanos > 3 * NANOS_PER_SEC
    }

    /// Whether the client may be saving its work, `elapsed_nanos` after the
    /// last step.
    pub fn saving_after(&self, elapsed_nanos: u128) -> (r: bool)
        ensures
            r == self.shows_saving(elapsed_nanos as int),
    {
        match self {
            KillStatus::GracefulSent(_) => longer_than_secs(elapsed_nanos, 5),
            _ => false,
        }
    }

    /// Whether the client may be hanging, `elapsed_nanos` after the last step.
    pub fn hanging_after(&self, elapsed_nanos: u128) -> (r: bool)
        ensures
            r == self.shows_hanging(elapsed_nanos as int),
    {
        match self {
            KillStatus::TermSent(_) => longer_than_secs(elapsed_nanos, 3),
            _ => false,
        }
    }

    /// Whether two statuses are equal.
    pub fn same_status(&self, other: &Self) -> (r: bool)
        ensures
            r == (*self == *other),
    {
        match (self, other) {
            (KillStatus::Alive, KillStatus::Alive) => true,
            (KillStatus::GracefulSent(a), KillStatus::GracefulSent(b)) => same_instant(a, b),
            (KillStatus::TermSent(a), KillStatus::TermSent(b)) => same_instant(a, b),
            (KillStatus::KillSent, KillStatus::KillSent) => true,
            _ => false,
        }
    }
}

#[derive(Clone, Copy, Debug, PartialEq, Eq, PartialOrd, Structural)]
pub enum ClientKind {
    Window,
    Layer,
}

/// An open client: a window or a layer surface, and how far its closing has gone.
#[derive(Clone, Debug, PartialEq, Eq)]
pub struct Client {
    pub pid: i32,
    /// What the compositor knows the client by, for closing it; empty when
    /// there is none.
    pub unique_id: String,
    pub kind: ClientKind,
    pub app_id: String,
    pub title: Option<String>,
    pub status: KillStatus,
}

/// A client's fields as plain values.
pub struct ClientView {
    pub pid: i32,
    pub unique_id: Seq<char>,
    pub kind: ClientKind,
    pub app_id: Seq<char>,
    pub title: Option<Seq<char>>,
    pub status: KillStatus,
}

pub open spec fn title_view(title: Option<String>) -> Option<Seq<char>> {
    match title {
        Some(t) => Some(t@),
        None => None,
    }
}

impl View for Client {
    type V = ClientView;

    open spec fn view(&self) -> ClientView {
        ClientView {
            pid: self.pid,
            unique_id: self.unique_id@,
            kind: self.kind,
            app_id: self.app_id@,
            title: title_view(self.title),
            status: self.status,
        }
    }
}

/// How a client with app ID `app_id` and pid `pid` is named in messages.
pub open spec fn client_text(app_id: Seq<char>, pid: int) -> Seq<char> {
    "Client { app_id: "@ + app_id + ", pid: "@ + dec_int(pid) + " }"@
}

fn same_title(a: &Option<String>, b: &Option<String>) -> (r: bool)
    ensures
        r == (title_view(*a) == title_view(*b)),
{
    match (a, b) {
        (Some(x), Some(y)) => str_eq(x.as_str(), y.as_str()),
        (None, None) => true,
        _ => false,
    }
}

impl Client {
    pub fn pid(&self) -> (r: i32)
        ensures
            r == self.pid,
    {
        self.pid
    }

    /// How the client is named in messages: its app ID and pid.
    pub fn to_string(&self) -> (r: String)
        ensures
            r@ == client_text(self.app_id@, self.pid as int),
    {
        let mut s = String::from_str("Client { app_id: ");
        s.append(self.app_id.as_str());
        s.append(", pid: ");
        let digits = fmt_i64(self.pid as i64);
        s.append(digits.as_str());
        s.append(" }");
        s
    }

    pub fn app_id(&self) -> (r: &str)
        ensures
            r@ == self.app_id@,
    {
        self.app_id.as_str()
    }

    pub fn title(&self) -> (r: Option<&str>)
        ensures
            match r {
                Some(t) => self.title is Some && t@ == self.title->0@,
                None => self.title is None,
            },
    {
        match &self.title {
            Some(t) => Some(t.as_str()),
            None => None,
        }
    }

    pub fn is_layer(&self) -> (r: bool)
        ensures
            r == (self.kind == ClientKind::Layer),
    {
        match self.kind {
            ClientKind::Layer => true,
            ClientKind::Window => false,
        }
    }

    pub fn status(&self) -> (r: &KillStatus)
        ensures
            *r == self.status,
    {
        &self.status
    }

    pub fn unique_id(&self) -> (r: &str)
        ensures
            r@ == self.unique_id@,
    {
        self.unique_id.as_str()
    }

    /// Takes the next step of the client's status, stamped with the time of
    /// this call.
    pub fn update_status(&mut self)
        ensures
            final(self).status.stage() == KillStatus::next_stage(old(self).status.stage()),
            exists|now: Instant| final(self).status == old(self).status.next_status(now),
            (old(self).status is Alive || old(self).status is GracefulSent) ==> exists|now: Instant|
                read_from_clock(now) && final(self).status == #[trigger] old(self).status.next_status(
                    now,
                ),
            final(self).pid == old(self).pid,
            final(self).unique_id == old(self).unique_id,
            final(self).kind == old(self).kind,
            final(self).app_id == old(self).app_id,
            final(self).title == old(self).title,
    {
        self.status = self.status.update();
    }

    /// Whether the client may be asking the user to save their work: it was
    /// asked to close gracefully more than 5 seconds ago and is still open.
    /// There is no reliable way to detect save dialogs, so this is a guess.
    pub fn may_be_saving(&self) -> (r: bool)
        ensures
            r ==> self.status is GracefulSent,
            exists|elapsed_nanos: int| elapsed_nanos >= 0 && r == self.status.shows_saving(elapsed_nanos),
            exists|elapsed_nanos: int|
                self.status.measured_for(elapsed_nanos) && r == #[trigger] self.status.shows_saving(
                    elapsed_nanos,
                ),
    {
        self.status.saving_after(self.status.elapsed_nanos())
    }

    /// Whether the client may be hanging: it was sent `SIGTERM` more than 3
    /// seconds ago and has not exited.
    pub fn may_be_hanging(&self) -> (r: bool)
        ensures
            r ==> self.status is TermSent,
            exists|elapsed_nanos: int| elapsed_nanos >= 0 && r == self.status.shows_hanging(elapsed_nanos),
            exists|elapsed_nanos: int|
                self.status.measured_for(elapsed_nanos) && r == #[trigger] self.status.shows_hanging(
                    elapsed_nanos,
                ),
    {
        self.status.hanging_after(self.status.elapsed_nanos())
    }
}

impl ClientOrd for Client {
    open spec fn layer_key(&self) -> bool {
        self.kind == ClientKind::Layer
    }

    open spec fn name_key(&self) -> Seq<char> {
        self.app_id@
    }

    fn layer_flag(&self) -> (b: bool) {
        self.is_layer()
    }

    fn name_str(&self) -> (s: &str) {
        self.app_id.as_str()
    }

    fn same_client(&self, other: &Self) -> (b: bool) {
        self.pid == other.pid && str_eq(self.unique_id.as_str(), other.unique_id.as_str())
            && self.kind == other.kind && str_eq(self.app_id.as_str(), other.app_id.as_str())
            && same_title(&self.title, &other.title) && self.status.same_status(&other.status)
    }
}

/// An error reported by a compositor backend.
#[derive(Clone, Debug, PartialEq, Eq)]
pub struct BackendError {
    pub message: String,
}

/// What went wrong while closing a client.
#[derive(Clone, Debug, PartialEq, Eq)]
pub enum KillCause {
    /// A signal could not be sent; the refusal names it.
    Signal(Refusal),
    /// The backend could not ask for a graceful close.
    Close(BackendError),
}

/// The client that could not be closed, and why.
#[derive(Clone, Debug, PartialEq, Eq)]
pub struct KillError {
    pub app_id: String,
    pub pid: i32,
    pub cause: KillCause,
}

/// A compositor: it lists the open clients and can ask one to close.
pub trait WaylandBackend {
    /// Retrieves all currently-open clients.
    fn open_clients(&self) -> Result<Vec<Client>, BackendError>;

    /// A request to close `client` went out to the compositor.
    spec fn close_requested(&self, client: Client) -> bool;

    /// Meant to be used first before sending SIGTERM (and eventually SIGKILL)
    /// signal, so apps have a chance to gracefully exit. Each implementation
    /// owes that `Ok` means the request went out.
    fn gracefully_close(&self, client: &Client) -> (r: Result<(), BackendError>)
        ensures
            r is Ok ==> self.close_requested(*client),
    ;
}

/// The client can only be closed by signals: layers have no window to close,
/// and a client without an ID cannot be named to the compositor.
pub open spec fn signals_only(c: Client) -> bool {
    c.kind == ClientKind::Layer || c.unique_id@.len() == 0
}

/// The fields other than the status are the same.
pub open spec fn same_but_status(a: Client, b: Client) -> bool {
    &&& a.pid == b.pid
    &&& a.unique_id@ == b.unique_id@
    &&& a.kind == b.kind
    &&& a.app_id@ == b.app_id@
    &&& title_view(a.title) == title_view(b.title)
}

/// A step of closing, as it is decided before it is taken.
#[derive(Clone, Copy, Debug, PartialEq, Eq)]
pub enum KillStep {
    /// Ask the compositor to close the client.
    Close,
    /// Send this signal to the client's process.
    Signal(SignalKind),
}

/// A step of closing that went through.
#[derive(Clone, Copy, Debug, PartialEq, Eq)]
pub enum StepTaken {
    /// The close request went out to the compositor.
    CloseRequested,
    /// The signal went out; the receipt names the process and the signal.
    Signalled(Delivery),
}

/// The step an action calls for. A client that only signals can close gets
/// `SIGTERM` in place of the graceful request.
pub open spec fn step_for(action: KillAction, signals_only: bool) -> KillStep {
    match action {
        KillAction::Graceful => if signals_only {
            KillStep::Signal(SignalKind::Terminate)
        } else {
            KillStep::Close
        },
        KillAction::Sigterm => KillStep::Signal(SignalKind::Terminate),
        KillAction::Sigkill => KillStep::Signal(SignalKind::Kill),
    }
}

/// Whether the status moves on once the step for `action` went through: it
/// does, but for the `SIGTERM` sent in place of a graceful request, which is
/// sent again on every round.
pub open spec fn advances(action: KillAction, signals_only: bool) -> bool {
    !(action == KillAction::Graceful && signals_only)
}

/// `taken` carries out `step` on process `pid`; `close_sent` says whether
/// a close request for the client went out to the compositor.
pub open spec fn carries_out(taken: StepTaken, step: KillStep, pid: i32, close_sent: bool) -> bool {
    match (taken, step) {
        (StepTaken::CloseRequested, KillStep::Close) => close_sent,
        (StepTaken::Signalled(d), KillStep::Signal(kind)) => d@ == (pid, Some(kind)),
        _ => false,
    }
}

/// `cause` is how `step` on process `pid` can fail: a close request is
/// refused by the compositor, a signal by the system.
pub open spec fn failure_of(cause: KillCause, step: KillStep, pid: i32) -> bool {
    match (cause, step) {
        (KillCause::Close(_), KillStep::Close) => true,
        (KillCause::Signal(f), KillStep::Signal(kind)) => f.attempt() == (pid, Some(kind)),
        _ => false,
    }
}

/// One round of closing `old`, `elapsed_nanos` after its last step and at
/// time `now`, answers `r` and leaves the status at `new_status`;
/// `close_sent` says whether a close request for `old` went out:
/// - with no action due, nothing is sent, the answer is `Ok(None)` and the
///   status stays;
/// - with an action due, its step is taken; if it went through (for a close
///   request: it went out), the answer is its receipt and the
///   status moves on (stamped `now`) unless `SIGTERM`
///   stood in for the graceful request; if it failed, the answer is its
///   failure and the status stays, so the step is due again.
pub open spec fn kill_outcome(
    old: Client,
    close_sent: bool,
    elapsed_nanos: int,
    now: Instant,
    r: Result<Option<StepTaken>, KillCause>,
    new_status: KillStatus,
) -> bool {
    match old.status.action_after(elapsed_nanos) {
        None => r matches Ok(None) && new_status == old.status,
        Some(action) => {
            let step = step_for(action, signals_only(old));
            match r {
                Ok(Some(taken)) => carries_out(taken, step, old.pid, close_sent) && new_status == (if advances(
                    action,
                    signals_only(old),
                ) {
                    old.status.next_status(now)
                } else {
                    old.status
                }),
                Ok(None) => false,
                Err(cause) => failure_of(cause, step, old.pid) && new_status == old.status,
            }
        },
    }
}

/// Some moment of the call makes `kill_outcome` hold: the time since the
/// last step is read from the clock against the status's time, and the
/// current time, which stamps a new status, is read from the clock too.
pub open spec fn round_outcome(
    old: Client,
    close_sent: bool,
    r: Result<Option<StepTaken>, KillCause>,
    new_status: KillStatus,
) -> bool {
    exists|elapsed_nanos: int, now: Instant|
        elapsed_nanos >= 0 && old.status.measured_for(elapsed_nanos) && read_from_clock(now)
            && #[trigger] kill_outcome(
            old,
            close_sent,
            elapsed_nanos,
            now,
            r,
            new_status,
        )
}

/// A round of closing `old` went through and left the status at `new_status`.
pub open spec fn round_went_through(old: Client, close_sent: bool, new_status: KillStatus) -> bool {
    exists|taken: Option<StepTaken>| #[trigger] round_outcome(old, close_sent, Ok(taken), new_status)
}

/// The pids of `clients`, in order.
pub open spec fn pids_of(clients: Seq<Client>) -> Seq<i32> {
    clients.map_values(|c: Client| c.pid)
}

/// Sends the closing signals and graceful close requests.
pub struct ClientKiller {}

impl ClientKiller {
    pub fn new() -> Self {
        ClientKiller {  }
    }

    /// Sends `SIGKILL` to every client in turn, stopping at the first that
    /// cannot be signalled; gives the receipts, or the error with the
    /// receipts of the signals sent before it.
    pub fn force_kill_clients(&self, clients: &[Client]) -> (r: Result<Vec<Delivery>, ForceKillError>)
        ensures
            r matches Ok(sent) ==> delivered_in_order(sent@, pids_of(clients@), SignalKind::Kill),
            r matches Err(e) ==> {
                let k = e.delivered@.len() as int;
                &&& k < clients@.len()
                &&& e.refused.attempt() == (clients@[k].pid, Some(SignalKind::Kill))
                &&& delivered_in_order(e.delivered@, pids_of(clients@).take(k), SignalKind::Kill)
            },
    {
        let mut sent: Vec<Delivery> = Vec::new();
        let n = clients.len();
        let mut i: usize = 0;
        while i < n
            invariant
                n == clients@.len(),
                i <= n,
                sent@.len() == i,
                forall|j: int| 0 <= j < i ==> #[trigger] sent@[j]@ == (clients@[j].pid, Some(SignalKind::Kill)),
            decreases n - i,
        {
            let pid = clients[i].pid;
            match kill_process(pid, Some(SignalKind::Kill)) {
                Ok(d) => {
                    sent.push(d);
                },
                Err(refused) => {
                    return Err(ForceKillError { delivered: sent, refused });
                },
            }
            i = i + 1;
        }
        Ok(sent)
    }

    /// Takes the step due for every client in turn, stopping at the first
    /// that fails; gives what was done to each client.
    pub fn kill_clients<B: WaylandBackend>(&mut self, backend: &B, clients: &mut Vec<Client>) -> (r:
        Result<Vec<Option<StepTaken>>, KillError>)
        ensures
            final(clients)@.len() == old(clients)@.len(),
            forall|i: int|
                0 <= i < old(clients)@.len() ==> same_but_status(
                    #[trigger] old(clients)@[i],
                    final(clients)@[i],
                ),
            r matches Ok(steps) ==> steps@.len() == old(clients)@.len() && forall|i: int|
                0 <= i < old(clients)@.len() ==> round_outcome(
                    #[trigger] old(clients)@[i],
                    backend.close_requested(old(clients)@[i]),
                    Ok(steps@[i]),
                    final(clients)@[i].status,
                ),
            r matches Err(e) ==> exists|k: int|
                0 <= k < old(clients)@.len() && e.pid == #[trigger] old(clients)@[k].pid
                    && e.app_id@ == old(clients)@[k].app_id@ && round_outcome(
                    old(clients)@[k],
                    backend.close_requested(old(clients)@[k]),
                    Err(e.cause),
                    final(clients)@[k].status,
                ) && (forall|i: int|
                    0 <= i < k ==> round_went_through(
                        #[trigger] old(clients)@[i],
                        backend.close_requested(old(clients)@[i]),
                        final(clients)@[i].status,
                    )) && (forall|i: int|
                    k < i < old(clients)@.len() ==> #[trigger] final(clients)@[i].status
                        == old(clients)@[i].status),
            (forall|i: int|
                0 <= i < old(clients)@.len() ==> #[trigger] old(clients)@[i].status
                    == KillStatus::KillSent) ==> r is Ok,
    {
        let ghost start = clients@;
        let mut steps: Vec<Option<StepTaken>> = Vec::new();
        let n = clients.len();
        let mut i: usize = 0;
        while i < n
            invariant
                n == start.len(),
                start == old(clients)@,
                clients@.len() == n,
                i <= n,
                steps@.len() == i,
                forall|j: int| 0 <= j < i ==> same_but_status(#[trigger] start[j], clients@[j]),
                forall|j: int|
                    0 <= j < i ==> round_outcome(
                        #[trigger] start[j],
                        backend.close_requested(start[j]),
                        Ok(steps@[j]),
                        clients@[j].status,
                    ),
                forall|j: int| i <= j < n ==> #[trigger] clients@[j] == start[j],
            decreases n - i,
        {
            let res = self.kill_client(backend, &mut clients[i]);
            match res {
                Ok(taken) => {
                    steps.push(taken);
                },
                Err(cause) => {
                    let app_id = clients[i].app_id.clone();
                    let pid = clients[i].pid;
                    proof {
                        assert forall|j: int| 0 <= j < i implies round_went_through(
                            #[trigger] start[j],
                            backend.close_requested(start[j]),
                            clients@[j].status,
                        ) by {
                            assert(round_outcome(
                                start[j],
                                backend.close_requested(start[j]),
                                Ok(steps@[j]),
                                clients@[j].status,
                            ));
                        }
                        let ki = i as int;
                        let (e, t) = choose|e: int, t: Instant|
                            e >= 0 && #[trigger] kill_outcome(
                                start[ki],
                                backend.close_requested(start[ki]),
                                e,
                                t,
                                Err(cause),
                                clients@[ki].status,
                            );
                        assert(start[ki].status != KillStatus::KillSent);
                    }
                    return Err(KillError { app_id, pid, cause });
                },
            }
            i = i + 1;
        }
        Ok(steps)
    }

    /// Takes the step due for one client and moves its status on, reading
    /// the time since its last step and the current time from the clock.
    /// The step follows the action due: the graceful request (or `SIGTERM`,
    /// for a client that only signals can close, whose status then stays),
    /// then `SIGTERM`, then `SIGKILL`. Gives the step taken, `None` when
    /// nothing was due, or the failure of the step, with the status unchanged.
    pub fn kill_client<B: WaylandBackend>(&mut self, backend: &B, client: &mut Client) -> (r:
        Result<Option<StepTaken>, KillCause>)
        ensures
            same_but_status(*old(client), *final(client)),
            round_outcome(*old(client), backend.close_requested(*old(client)), r, final(client).status),
            old(client).status == KillStatus::KillSent ==> (r matches Ok(None) && final(client).status
                == KillStatus::KillSent),
    {
        let elapsed = client.status.elapsed_nanos();
        let now = instant_now().instant();
        self.kill_client_at(backend, client, elapsed, now)
    }

    /// Takes the step due for one client `elapsed_nanos` after its last
    /// step, at time `now`, which stamps the new status.
    pub fn kill_client_at<B: WaylandBackend>(
        &mut self,
        backend: &B,
        client: &mut Client,
        elapsed_nanos: u128,
        now: Instant,
    ) -> (r: Result<Option<StepTaken>, KillCause>)
        ensures
            same_but_status(*old(client), *final(client)),
            kill_outcome(
                *old(client),
                backend.close_requested(*old(client)),
                elapsed_nanos as int,
                now,
                r,
                final(client).status,
            ),
    {
        let pid = client.pid;
        match client.status.poll_after(elapsed_nanos) {
            None => Ok(None),
            Some(KillAction::Graceful) => {
                if client.is_layer() || client.unique_id.unicode_len() == 0 {
                    match kill_process(pid, Some(SignalKind::Terminate)) {
                        Ok(d) => Ok(Some(StepTaken::Signalled(d))),
                        Err(f) => Err(KillCause::Signal(f)),
                    }
                } else {
                    match backend.gracefully_close(client) {
                        Ok(()) => {
                            client.status = client.status.update_at(now);
                            Ok(Some(StepTaken::CloseRequested))
                        },
                        Err(e) => Err(KillCause::Close(e)),
                    }
                }
            },
            Some(KillAction::Sigterm) => match kill_process(pid, Some(SignalKind::Terminate)) {
                Ok(d) => {
                    client.status = client.status.update_at(now);
                    Ok(Some(StepTaken::Signalled(d)))
                },
                Err(f) => Err(KillCause::Signal(f)),
            },
            Some(KillAction::Sigkill) => match kill_process(pid, Some(SignalKind::Kill)) {
                Ok(d) => {
                    client.status = client.status.update_at(now);
                    Ok(Some(StepTaken::Signalled(d)))
                },
                Err(f) => Err(KillCause::Signal(f)),
            },
        }
    }
}

/// A client that is still alive is first asked to close gracefully,
/// however long it has been open.
pub proof fn law_graceful_close_comes_first(elapsed_nanos: int)
    ensures
        KillStatus::Alive.action_after(elapsed_nanos) == Some(KillAction::Graceful),
{
}

/// Each action comes at its own step: the graceful request while alive,
/// `SIGTERM` only after the graceful request, `SIGKILL` only after
/// `SIGTERM`, and nothing once `SIGKILL` has been sent.
pub proof fn law_actions_escalate(status: KillStatus, elapsed_nanos: int)
    ensures
        match status.action_after(elapsed_nanos) {
            Some(KillAction::Graceful) => status.stage() == 0,
            Some(KillAction::Sigterm) => status.stage() == 1,
            Some(KillAction::Sigkill) => status.stage() == 2,
            None => status.stage() >= 1,
        },
        status.stage() == 3 ==> status.action_after(elapsed_nanos) is None,
{
}

/// `SIGTERM` is due exactly once 15 seconds have passed since the graceful
/// request, and `SIGKILL` exactly once 30 seconds have passed since `SIGTERM`.
pub proof fn law_timeouts(status: KillStatus, elapsed_nanos: int)
    ensures
        status is GracefulSent ==> (status.action_after(elapsed_nanos) is Some <==> elapsed_nanos
            > 15 * NANOS_PER_SEC),
        status is TermSent ==> (status.action_after(elapsed_nanos) is Some <==> elapsed_nanos > 30
            * NANOS_PER_SEC),
{
}

/// Once due, an action stays due as time goes on.
pub proof fn law_action_stays_due(status: KillStatus, earlier: int, later: int)
    requires
        earlier <= later,
        status.action_after(earlier) is Some,
    ensures
        status.action_after(later) == status.action_after(earlier),
{
}

/// Three steps take any status to `KillSent`, which is final.
pub proof fn law_three_steps_reach_kill_sent(status: KillStatus)
    ensures
        KillStatus::next_stage(KillStatus::next_stage(KillStatus::next_stage(status.stage()))) == 3,
        KillStatus::next_stage(3) == 3,
{
}

/// A round of closing moves a client's status at most one step, and never
/// back.
pub proof fn law_round_moves_one_step(
    old: Client,
    close_sent: bool,
    elapsed_nanos: int,
    now: Instant,
    r: Result<Option<StepTaken>, KillCause>,
    new_status: KillStatus,
)
    requires
        kill_outcome(old, close_sent, elapsed_nanos, now, r, new_status),
    ensures
        old.status.stage() <= new_status.stage() <= KillStatus::next_stage(old.status.stage()),
{
}

/// The steps escalate over the rounds: a close request goes only to an
/// alive client, and counts only once it went out; `SIGTERM` only to an
/// alive client or after the graceful request; and `SIGKILL` only after
/// `SIGTERM`, after which the client is `KillSent`.
pub proof fn law_steps_escalate(
    old: Client,
    close_sent: bool,
    elapsed_nanos: int,
    now: Instant,
    taken: StepTaken,
    new_status: KillStatus,
)
    requires
        kill_outcome(old, close_sent, elapsed_nanos, now, Ok(Some(taken)), new_status),
    ensures
        taken is CloseRequested ==> close_sent && old.status == KillStatus::Alive && new_status
            == KillStatus::GracefulSent(now),
        taken matches StepTaken::Signalled(d) ==> d@.0 == old.pid,
        taken matches StepTaken::Signalled(d) && d@.1 == Some(SignalKind::Terminate) ==> (
        old.status is Alive && new_status == old.status) || (old.status is GracefulSent
            && new_status == KillStatus::TermSent(now)),
        taken matches StepTaken::Signalled(d) && d@.1 == Some(SignalKind::Kill) ==> old.status is TermSent
            && new_status == KillStatus::KillSent,
{
}

/// A step that failed is due again on the next round, however much later it
/// comes.
pub proof fn law_failed_step_is_due_again(
    old: Client,
    close_sent: bool,
    elapsed_nanos: int,
    now: Instant,
    cause: KillCause,
    new_status: KillStatus,
    later_nanos: int,
)
    requires
        kill_outcome(old, close_sent, elapsed_nanos, now, Err(cause), new_status),
        elapsed_nanos <= later_nanos,
    ensures
        new_status == old.status,
        new_status.action_after(later_nanos) == old.status.action_after(elapsed_nanos),
{
}

/// No escalation comes early: until 15 seconds have passed since the
/// graceful request, and 30 since `SIGTERM`, a round sends nothing and
/// leaves the status. Once that time has passed, the next signal (`SIGTERM`,
/// then `SIGKILL`) is the only step, addressed to the client's pid.
pub proof fn law_escalation_waits_for_its_timeout(
    old: Client,
    close_sent: bool,
    elapsed_nanos: int,
    now: Instant,
    r: Result<Option<StepTaken>, KillCause>,
    new_status: KillStatus,
)
    requires
        kill_outcome(old, close_sent, elapsed_nanos, now, r, new_status),
    ensures
        old.status is GracefulSent && elapsed_nanos <= 15 * NANOS_PER_SEC ==> (r matches Ok(None)
            && new_status == old.status),
        old.status is TermSent && elapsed_nanos <= 30 * NANOS_PER_SEC ==> (r matches Ok(None)
            && new_status == old.status),
        old.status is GracefulSent && elapsed_nanos > 15 * NANOS_PER_SEC ==> match r {
            Ok(Some(StepTaken::Signalled(d))) => d@ == (old.pid, Some(SignalKind::Terminate))
                && new_status == KillStatus::TermSent(now),
            Err(KillCause::Signal(f)) => f.attempt() == (old.pid, Some(SignalKind::Terminate))
                && new_status == old.status,
            _ => false,
        },
        old.status is TermSent && elapsed_nanos > 30 * NANOS_PER_SEC ==> match r {
            Ok(Some(StepTaken::Signalled(d))) => d@ == (old.pid, Some(SignalKind::Kill))
                && new_status == KillStatus::KillSent,
            Err(KillCause::Signal(f)) => f.attempt() == (old.pid, Some(SignalKind::Kill))
                && new_status == old.status,
            _ => false,
        },
{
}

/// The compositors this program can drive.
#[derive(Clone, Copy, Debug, PartialEq, Eq)]
pub enum BackendKind {
    Hyprland,
    Sway,
}

/// The backend for a value of `XDG_CURRENT_DESKTOP`.
pub open spec fn backend_for(current_desktop: Option<&str>) -> Option<BackendKind> {
    match current_desktop {
        Some(d) => if d@ == "Hyprland"@ {
            Some(BackendKind::Hyprland)
        } else if d@ == "sway"@ {
            Some(BackendKind::Sway)
        } else {
            None
        },
        None => None,
    }
}

/// Picks the backend from the value of `XDG_CURRENT_DESKTOP`: `Hyprland` or
/// `sway`; any other value, or none, gives no backend.
pub fn detect_backend(current_desktop: Option<&str>) -> (r: Option<BackendKind>)
    ensures
        r == backend_for(current_desktop),
{
    match current_desktop {
        Some(d) => {
            if str_eq(d, "Hyprland") {
                Some(BackendKind::Hyprland)
            } else if str_eq(d, "sway") {
                Some(BackendKind::Sway)
            } else {
                None
            }
        },
        None => None,
    }
}

} // verus!
