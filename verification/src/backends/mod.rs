//! Compositor backends and the clients they list, closed with one graceful
//! request or one `SIGTERM` per round.
use std::time::Instant;

use vstd::prelude::*;

use crate::order::ClientOrd;
use crate::client_killer::StepTaken;
use crate::signal::{delivered_in_order, kill_process, Delivery, ForceKillError, SignalKind};
use crate::text::{fmt_i64, str_eq};
use crate::timing::{
    instant_now, longer_than_secs, measured, nanos_since, read_from_clock, same_instant, NANOS_PER_SEC,
};

pub use crate::client_killer::{BackendError, BackendKind, KillCause, KillError};

pub mod hyprland;
pub mod mango;
pub mod sway;

verus! {

/// Sends the closing signals and graceful close requests.
pub struct ClientKiller;

#[derive(Clone, Copy, Debug, PartialEq, Eq, PartialOrd, Structural)]
pub enum ClientKind {
    Window,
    Layer,
}

/// An open client: a window or a layer surface, with the time it was listed.
#[derive(Clone, Debug, PartialEq, Eq)]
pub struct Client {
    pub pid: i32,
    /// What the compositor knows the client by, for closing it; empty when
    /// there is none.
    pub unique_id: String,
    pub kind: ClientKind,
    /// The name of the app, for instance `anki`.
    pub app_id: String,
    /// The title of the open page, for instance `User 1 - Anki`.
    pub title: Option<String>,
    pub instant_started: Instant,
}

/// A client's fields other than its time, as plain values.
pub struct ClientData {
    pub pid: i32,
    pub unique_id: Seq<char>,
    pub kind: ClientKind,
    pub app_id: Seq<char>,
    pub title: Option<Seq<char>>,
}

pub open spec fn title_view(title: Option<String>) -> Option<Seq<char>> {
    match title {
        Some(t) => Some(t@),
        None => None,
    }
}

impl View for Client {
    type V = (ClientData, Instant);

    open spec fn view(&self) -> (ClientData, Instant) {
        (self.data(), self.instant_started)
    }
}

fn same_title(a: &Option<String>, b: &Option<String>) -> (r: bool)
    ensures
        r == (title_view(*a) == title_view(*b)),
{
    match (a, b) {
        (Some(x), Some(y)) => str_eq(x.as_str(), y.as_str()),
        (None, None) => true,
        _ => false,
    }
}

impl Client {
    pub open spec fn data(self) -> ClientData {
        ClientData {
            pid: self.pid,
            unique_id: self.unique_id@,
            kind: self.kind,
            app_id: self.app_id@,
            title: title_view(self.title),
        }
    }

    /// A client listed now.
    pub fn new(pid: i32, unique_id: String, kind: ClientKind, app_id: String, title: Option<
        String,
    >) -> (r: Self)
        ensures
            r.pid == pid,
            r.unique_id == unique_id,
            r.kind == kind,
            r.app_id == app_id,
            r.title == title,
            read_from_clock(r.instant_started),
    {
        let listed_at = instant_now().instant();
        Client { pid, unique_id, kind, app_id, title, instant_started: listed_at }
    }

    pub fn pid(&self) -> (r: i32)
        ensures
            r == self.pid,
    {
        self.pid
    }

    /// How the client is named in messages: its app ID and pid.
    pub fn to_string(&self) -> (r: String)
        ensures
            r@ == crate::client_killer::client_text(self.app_id@, self.pid as int),
    {
        let mut s = String::from_str("Client { app_id: ");
        s.append(self.app_id.as_str());
        s.append(", pid: ");
        let digits = fmt_i64(self.pid as i64);
        s.append(digits.as_str());
        s.append(" }");
        s
    }

    pub fn app_id(&self) -> (r: &str)
        ensures
            r@ == self.app_id@,
    {
        self.app_id.as_str()
    }

    pub fn title(&self) -> (r: Option<&str>)
        ensures
            match r {
                Some(t) => self.title is Some && t@ == self.title->0@,
                None => self.title is None,
            },
    {
        match &self.title {
            Some(t) => Some(t.as_str()),
            None => None,
        }
    }

    pub fn is_layer(&self) -> (r: bool)
        ensures
            r == (self.kind == ClientKind::Layer),
    {
        match self.kind {
            ClientKind::Layer => true,
            ClientKind::Window => false,
        }
    }

    pub fn unique_id(&self) -> (r: &str)
        ensures
            r@ == self.unique_id@,
    {
        self.unique_id.as_str()
    }

    pub fn instant_started(&self) -> (r: &Instant)
        ensures
            *r == self.instant_started,
    {
        &self.instant_started
    }

    /// A span of `elapsed_nanos` nanoseconds is longer than `secs` seconds.
    pub open spec fn longer_than(elapsed_nanos: int, secs: int) -> bool {
        elapsed_nanos > secs * NANOS_PER_SEC
    }

    /// Whether a client listed `elapsed_nanos` ago may be saving its work:
    /// more than 5 seconds have passed.
    pub fn saving_after(elapsed_nanos: u128) -> (r: bool)
        ensures
            r == Self::longer_than(elapsed_nanos as int, 5),
    {
        longer_than_secs(elapsed_nanos, 5)
    }

    /// Whether a client listed `elapsed_nanos` ago may be hanging: more than
    /// 10 seconds have passed.
    pub fn hanging_after(elapsed_nanos: u128) -> (r: bool)
        ensures
            r == Self::longer_than(elapsed_nanos as int, 10),
    {
        longer_than_secs(elapsed_nanos, 10)
    }

    /// Whether the client may be asking the user to save their work: it is
    /// still open more than 5 seconds after it was listed. There is no
    /// reliable way to detect save dialogs, so this is a guess.
    pub fn may_be_saving(&self) -> (r: bool)
        ensures
            exists|elapsed_nanos: int| elapsed_nanos >= 0 && r == #[trigger] Self::longer_than(elapsed_nanos, 5),
            exists|elapsed_nanos: int|
                measured(self.instant_started, elapsed_nanos) && r == #[trigger] Self::longer_than(
                    elapsed_nanos,
                    5,
                ),
    {
        let reading = nanos_since(&self.instant_started);
        let elapsed = reading.nanos();
        assert(measured(self.instant_started, elapsed as int));
        Self::saving_after(elapsed)
    }

    /// Whether the client may be hanging: it is still open more than 10
    /// seconds after it was listed.
    pub fn may_be_hanging(&self) -> (r: bool)
        ensures
            exists|elapsed_nanos: int| elapsed_nanos >= 0 && r == #[trigger] Self::longer_than(elapsed_nanos, 10),
            exists|elapsed_nanos: int|
                measured(self.instant_started, elapsed_nanos) && r == #[trigger] Self::longer_than(
                    elapsed_nanos,
                    10,
                ),
    {
        let reading = nanos_since(&self.instant_started);
        let elapsed = reading.nanos();
        assert(measured(self.instant_started, elapsed as int));
        Self::hanging_after(elapsed)
    }
}

impl ClientOrd for Client {
    open spec fn layer_key(&self) -> bool {
        self.kind == ClientKind::Layer
    }

    open spec fn name_key(&self) -> Seq<char> {
        self.app_id@
    }

    fn layer_flag(&self) -> (b: bool) {
        self.is_layer()
    }

    fn name_str(&self) -> (s: &str) {
        self.app_id.as_str()
    }

    fn same_client(&self, other: &Self) -> (b: bool) {
        self.pid == other.pid && str_eq(self.unique_id.as_str(), other.unique_id.as_str())
            && self.kind == other.kind && str_eq(self.app_id.as_str(), other.app_id.as_str())
            && same_title(&self.title, &other.title) && same_instant(
            &self.instant_started,
            &other.instant_started,
        )
    }
}

/// A compositor: it lists the open clients and can ask one to close. Each
/// implementation owes that `compositor_id` gives the fixed pid that
/// `compositor_pid` names.
pub trait WaylandBackend {
    /// The pid of the compositor itself.
    spec fn compositor_pid(&self) -> i32;

    /// `listing` is a whole listing of the clients open at some moment, as
    /// the compositor reported it, windows and layers alike. An
    /// implementation may narrow which listings are whole; by default any is.
    closed spec fn whole_listing(&self, listing: Seq<Client>) -> bool {
        true
    }

    /// Retrieves all currently-open clients.
    fn open_clients(&self) -> (r: Result<Vec<Client>, BackendError>)
        ensures
            r matches Ok(v) ==> self.whole_listing(v@),
    ;

    /// A request to close `client` went out to the compositor.
    spec fn close_requested(&self, client: Client) -> bool;

    /// Meant to be used first before sending SIGTERM (and eventually SIGKILL)
    /// signal, so apps have a chance to gracefully exit. Each implementation
    /// owes that `Ok` means the request went out.
    fn gracefully_close(&self, client: &Client) -> (r: Result<(), BackendError>)
        ensures
            r is Ok ==> self.close_requested(*client),
    ;

    /// The pid of the compositor itself, which must never be signalled.
    fn compositor_id(&self) -> (r: i32)
        ensures
            r == self.compositor_pid(),
    ;
}

/// How a client is asked to close.
#[derive(Clone, Copy, Debug, PartialEq, Eq)]
pub enum CloseMethod {
    /// Through the compositor.
    Graceful,
    /// With `SIGTERM`.
    Sigterm,
}

/// Layers have no window to close, and a client without an ID cannot be
/// named to the compositor: those get `SIGTERM`.
pub open spec fn close_method_of(c: Client) -> CloseMethod {
    if c.kind == ClientKind::Layer || c.unique_id@.len() == 0 {
        CloseMethod::Sigterm
    } else {
        CloseMethod::Graceful
    }
}

/// `taken` carries out the close of `c` by its method: the compositor's
/// close request, which went out (`close_sent`), or `SIGTERM` to its process.
pub open spec fn closes_by_method(taken: StepTaken, c: Client, close_sent: bool) -> bool {
    match close_method_of(c) {
        CloseMethod::Graceful => taken is CloseRequested && close_sent,
        CloseMethod::Sigterm => taken matches StepTaken::Signalled(d) && d@ == (
            c.pid,
            Some(SignalKind::Terminate),
        ),
    }
}

/// `cause` is how the close of `c` by its method can fail.
pub open spec fn fails_by_method(cause: KillCause, c: Client) -> bool {
    match close_method_of(c) {
        CloseMethod::Graceful => cause is Close,
        CloseMethod::Sigterm => cause matches KillCause::Signal(f) && f.attempt() == (
            c.pid,
            Some(SignalKind::Terminate),
        ),
    }
}

/// The pids of `clients`, in order.
pub open spec fn pids_of(clients: Seq<Client>) -> Seq<i32> {
    clients.map_values(|c: Client| c.pid)
}

impl ClientKiller {
    /// Sends `SIGKILL` to every client in turn, stopping at the first that
    /// cannot be signalled; gives the receipts, or the error with the
    /// receipts of the signals sent before it.
    pub fn force_kill_clients(clients: &[Client]) -> (r: Result<Vec<Delivery>, ForceKillError>)
        ensures
            r matches Ok(sent) ==> delivered_in_order(sent@, pids_of(clients@), SignalKind::Kill),
            r matches Err(e) ==> {
                let k = e.delivered@.len() as int;
                &&& k < clients@.len()
                &&& e.refused.attempt() == (clients@[k].pid, Some(SignalKind::Kill))
                &&& delivered_in_order(e.delivered@, pids_of(clients@).take(k), SignalKind::Kill)
            },
    {
        let mut sent: Vec<Delivery> = Vec::new();
        let n = clients.len();
        let mut i: usize = 0;
        while i < n
            invariant
                n == clients@.len(),
                i <= n,
                sent@.len() == i,
                forall|j: int| 0 <= j < i ==> #[trigger] sent@[j]@ == (clients@[j].pid, Some(SignalKind::Kill)),
            decreases n - i,
        {
            let pid = clients[i].pid;
            match kill_process(pid, Some(SignalKind::Kill)) {
                Ok(d) => {
                    sent.push(d);
                },
                Err(refused) => {
                    return Err(ForceKillError { delivered: sent, refused });
                },
            }
            i = i + 1;
        }
        Ok(sent)
    }

    /// How the client is asked to close.
    pub fn close_method(client: &Client) -> (r: CloseMethod)
        ensures
            r == close_method_of(*client),
    {
        if client.is_layer() || client.unique_id.unicode_len() == 0 {
            CloseMethod::Sigterm
        } else {
            CloseMethod::Graceful
        }
    }

    /// Asks every client in turn to close, stopping at the first that
    /// fails; gives what was done to each client, or an error that names the
    /// client that failed.
    pub fn kill_clients<B: WaylandBackend>(backend: &B, clients: &mut Vec<Client>) -> (r: Result<
        Vec<StepTaken>,
        KillError,
    >)
        ensures
            final(clients)@ == old(clients)@,
            r matches Ok(steps) ==> steps@.len() == old(clients)@.len() && forall|i: int|
                0 <= i < old(clients)@.len() ==> closes_by_method(
                    #[trigger] steps@[i],
                    old(clients)@[i],
                    backend.close_requested(old(clients)@[i]),
                ),
            r matches Err(e) ==> exists|k: int|
                0 <= k < old(clients)@.len() && e.pid == #[trigger] old(clients)@[k].pid
                    && e.app_id@ == old(clients)@[k].app_id@ && fails_by_method(
                    e.cause,
                    old(clients)@[k],
                ),
            old(clients)@.len() == 0 ==> r is Ok,
    {
        let mut steps: Vec<StepTaken> = Vec::new();
        let n = clients.len();
        let mut i: usize = 0;
        while i < n
            invariant
                n == clients@.len(),
                clients@ == old(clients)@,
                i <= n,
                steps@.len() == i,
                forall|j: int|
                    0 <= j < i ==> closes_by_method(
                        #[trigger] steps@[j],
                        clients@[j],
                        backend.close_requested(clients@[j]),
                    ),
            decreases n - i,
        {
            match Self::kill_client(backend, &clients[i]) {
                Ok(taken) => {
                    steps.push(taken);
                },
                Err(cause) => {
                    let app_id = clients[i].app_id.clone();
                    let pid = clients[i].pid;
                    return Err(KillError { app_id, pid, cause });
                },
            }
            i = i + 1;
        }
        Ok(steps)
    }

    /// Asks one client to close, by the method `close_method` picks.
    fn kill_client<B: WaylandBackend>(backend: &B, client: &Client) -> (r: Result<StepTaken, KillCause>)
        ensures
            r matches Ok(taken) ==> closes_by_method(taken, *client, backend.close_requested(*client)),
            r matches Err(cause) ==> fails_by_method(cause, *client),
    {
        match Self::close_method(client) {
            CloseMethod::Sigterm => match kill_process(client.pid, Some(SignalKind::Terminate)) {
                Ok(d) => Ok(StepTaken::Signalled(d)),
                Err(e) => Err(KillCause::Signal(e)),
            },
            CloseMethod::Graceful => match backend.gracefully_close(client) {
                Ok(()) => Ok(StepTaken::CloseRequested),
                Err(e) => Err(KillCause::Close(e)),
            },
        }
    }
}

/// Picks the backend from the value of `XDG_CURRENT_DESKTOP`: `Hyprland` or
/// `sway`; any other value, or none, gives no backend.
pub fn detect_backend(current_desktop: Option<&str>) -> (r: Option<BackendKind>)
    ensures
        r == crate::client_killer::backend_for(current_desktop),
{
    crate::client_killer::detect_backend(current_desktop)
}

} // verus!
