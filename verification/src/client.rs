//! Closing clients through a client type of the caller's choosing, which
//! knows its own status and how to close itself.
use vstd::prelude::*;

use crate::client_killer::{carries_out, failure_of, step_for, StepTaken};
use crate::timing::NANOS_PER_SEC;
use crate::signal::{delivered_in_order, kill_process, Delivery, ForceKillError, SignalKind};
use crate::text::{dec_int, fmt_i64};

pub use crate::client_killer::{BackendError, KillAction, KillCause, KillError, KillStatus};

verus! {

/// An open client as this module sees it. Its getters read fixed values of
/// the client: each implementation owes that `pid`, `is_layer` and `status`
/// give what `client_pid`, `client_is_layer` and `client_status` name.
pub trait WaylandClient {
    /// The client's process.
    spec fn client_pid(&self) -> i32;

    /// Whether the client is a layer surface.
    spec fn client_is_layer(&self) -> bool;

    /// How far the closing of the client has gone.
    spec fn client_status(&self) -> KillStatus;

    fn pid(&self) -> (r: i32)
        ensures
            r == self.client_pid(),
    ;

    fn app_id(&self) -> &str;

    fn title(&self) -> Option<&str>;

    fn is_layer(&self) -> (r: bool)
        ensures
            r == self.client_is_layer(),
    ;

    fn status(&self) -> (r: &KillStatus)
        ensures
            *r == self.client_status(),
    ;

    /// A request to close this client went out to the compositor.
    spec fn close_requested(&self) -> bool;

    /// Meant to be used first before sending SIGTERM (and eventually SIGKILL)
    /// signal, so apps have a chance to gracefully exit. Each implementation
    /// owes that `Ok` means the request went out.
    fn gracefully_close(&self) -> (r: Result<(), BackendError>)
        ensures
            r is Ok ==> self.close_requested(),
    ;
}

/// Sends the closing signals and graceful close requests.
pub struct ClientKiller {}

/// What one round of closing read from a client (its pid, status and
/// whether it is a layer) and what it did to it.
#[derive(Clone, Copy, Debug, PartialEq, Eq)]
pub struct ClientRound {
    pub pid: i32,
    pub status: KillStatus,
    pub is_layer: bool,
    pub taken: Option<StepTaken>,
}

/// `round` took the step due `elapsed_nanos` after the last step of the
/// status it read, on the pid it read; a layer gets `SIGTERM` in place of the
/// graceful request, which counts only if it went out (`close_sent`). With nothing due, nothing was done.
pub open spec fn took_step_due(round: ClientRound, close_sent: bool, elapsed_nanos: int) -> bool {
    match round.status.action_after(elapsed_nanos) {
        None => round.taken is None,
        Some(action) => round.taken matches Some(t) && carries_out(
            t,
            step_for(action, round.is_layer),
            round.pid,
            close_sent,
        ),
    }
}

/// `round` read `client`: its pid, status and kind.
pub open spec fn read_from<T: WaylandClient>(round: ClientRound, client: T) -> bool {
    &&& round.pid == client.client_pid()
    &&& round.status == client.client_status()
    &&& round.is_layer == client.client_is_layer()
}

/// A step due for `client` at some moment of the call failed with `cause`.
pub open spec fn failed_step_due<T: WaylandClient>(client: T, cause: KillCause) -> bool {
    exists|elapsed_nanos: int|
        elapsed_nanos >= 0 && #[trigger] client.client_status().action_after(elapsed_nanos) is Some
            && failure_of(
            cause,
            step_for(client.client_status().action_after(elapsed_nanos)->0, client.client_is_layer()),
            client.client_pid(),
        )
}

/// The pids of `clients`, in order.
pub open spec fn pids_of<T: WaylandClient>(clients: Seq<T>) -> Seq<i32> {
    clients.map_values(|c: T| c.client_pid())
}

/// `round` took the step due at some moment of the call: the time since the
/// last step is read from the clock against the status it read.
pub open spec fn round_fits(round: ClientRound, close_sent: bool) -> bool {
    exists|elapsed_nanos: int|
        elapsed_nanos >= 0 && round.status.measured_for(elapsed_nanos) && #[trigger] took_step_due(
            round,
            close_sent,
            elapsed_nanos,
        )
}

/// The text of the Lua close request for the windows of process `pid`.
pub open spec fn lua_close_text(pid: int) -> Seq<char> {
    "hl.dsp.window.close({ address = \"pid:"@ + dec_int(pid) + "\" })"@
}

/// The argument of `hyprctl dispatch` that closes the windows of process
/// `pid` when Hyprland is configured in Lua.
pub fn lua_close_args(pid: i32) -> (r: String)
    ensures
        r@ == lua_close_text(pid as int),
{
    let mut s = String::from_str("hl.dsp.window.close({ address = \"pid:");
    let digits = fmt_i64(pid as i64);
    s.append(digits.as_str());
    s.append("\" })");
    s
}

impl ClientKiller {
    pub fn new() -> Self {
        ClientKiller {  }
    }

    /// Sends `SIGKILL` to every client in turn, stopping at the first that
    /// cannot be signalled; gives the receipts, or the error with the
    /// receipts of the signals sent before it.
    pub fn force_kill_clients<T: WaylandClient>(&self, clients: &[T]) -> (r: Result<
        Vec<Delivery>,
        ForceKillError,
    >)
        ensures
            r matches Ok(sent) ==> delivered_in_order(sent@, pids_of(clients@), SignalKind::Kill),
            r matches Err(e) ==> {
                let k = e.delivered@.len() as int;
                &&& k < clients@.len()
                &&& e.refused.attempt() == (clients@[k].client_pid(), Some(SignalKind::Kill))
                &&& delivered_in_order(e.delivered@, pids_of(clients@).take(k), SignalKind::Kill)
            },
    {
        let mut sent: Vec<Delivery> = Vec::new();
        let n = clients.len();
        let mut i: usize = 0;
        while i < n
            invariant
                n == clients@.len(),
                i <= n,
                sent@.len() == i,
                forall|j: int|
                    0 <= j < i ==> #[trigger] sent@[j]@ == (clients@[j].client_pid(), Some(SignalKind::Kill)),
            decreases n - i,
        {
            let pid = clients[i].pid();
            match kill_process(pid, Some(SignalKind::Kill)) {
                Ok(d) => {
                    sent.push(d);
                },
                Err(refused) => {
                    return Err(ForceKillError { delivered: sent, refused });
                },
            }
            i = i + 1;
        }
        Ok(sent)
    }

    /// Takes the step due for every client in turn, stopping at the first
    /// that fails; the clients themselves are left as they were. Gives what
    /// each round read and did.
    pub fn kill_clients<T: WaylandClient>(&mut self, clients: &mut Vec<T>) -> (r: Result<
        Vec<ClientRound>,
        KillError,
    >)
        ensures
            final(clients)@ == old(clients)@,
            r matches Ok(rounds) ==> rounds@.len() == old(clients)@.len() && forall|i: int|
                0 <= i < rounds@.len() ==> round_fits(#[trigger] rounds@[i], old(clients)@[i].close_requested()) && read_from(
                    rounds@[i],
                    old(clients)@[i],
                ),
            r matches Err(e) ==> exists|k: int|
                0 <= k < old(clients)@.len() && e.pid == #[trigger] old(clients)@[k].client_pid()
                    && failed_step_due(old(clients)@[k], e.cause),
    {
        let mut rounds: Vec<ClientRound> = Vec::new();
        let n = clients.len();
        let mut i: usize = 0;
        while i < n
            invariant
                n == clients@.len(),
                clients@ == old(clients)@,
                i <= n,
                rounds@.len() == i,
                forall|j: int|
                    0 <= j < i ==> round_fits(#[trigger] rounds@[j], clients@[j].close_requested())
                        && read_from(rounds@[j], clients@[j]),
            decreases n - i,
        {
            let res = self.kill_client(&mut clients[i]);
            match res {
                Ok(round) => {
                    rounds.push(round);
                },
                Err(cause) => {
                    let app_id = String::from_str(clients[i].app_id());
                    let pid = clients[i].pid();
                    return Err(KillError { app_id, pid, cause });
                },
            }
            i = i + 1;
        }
        Ok(rounds)
    }

    /// Takes the step due for one client: a graceful close (or `SIGTERM`
    /// for a layer), `SIGTERM`, or `SIGKILL`. The client's status is not
    /// moved on: this client type offers no way to.
    fn kill_client<T: WaylandClient>(&mut self, client: &mut T) -> (r: Result<ClientRound, KillCause>)
        ensures
            *final(client) == *old(client),
            r matches Ok(round) ==> round_fits(round, old(client).close_requested()) && read_from(
                round,
                *old(client),
            ),
            r matches Err(cause) ==> failed_step_due(*old(client), cause),
    {
        let pid = client.pid();
        let status = *client.status();
        let is_layer = client.is_layer();
        let elapsed = status.elapsed_nanos();
        let ghost e = elapsed as int;
        let taken = match status.poll_after(elapsed) {
            None => None,
            Some(KillAction::Graceful) => {
                if is_layer {
                    match kill_process(pid, Some(SignalKind::Terminate)) {
                        Ok(d) => Some(StepTaken::Signalled(d)),
                        Err(e) => {
                            return Err(KillCause::Signal(e));
                        },
                    }
                } else {
                    match client.gracefully_close() {
                        Ok(()) => Some(StepTaken::CloseRequested),
                        Err(e) => {
                            return Err(KillCause::Close(e));
                        },
                    }
                }
            },
            Some(KillAction::Sigterm) => {
                match kill_process(pid, Some(SignalKind::Terminate)) {
                    Ok(d) => Some(StepTaken::Signalled(d)),
                    Err(e) => {
                        return Err(KillCause::Signal(e));
                    },
                }
            },
            Some(KillAction::Sigkill) => {
                match kill_process(pid, Some(SignalKind::Kill)) {
                    Ok(d) => Some(StepTaken::Signalled(d)),
                    Err(e) => {
                        return Err(KillCause::Signal(e));
                    },
                }
            },
        };
        let round = ClientRound { pid, status, is_layer, taken };
        assert(took_step_due(round, client.close_requested(), e));
        Ok(round)
    }
}

/// A round escalates on time: with the time since the last step read as
/// `elapsed_nanos`, a client sent the graceful request more than 15 seconds
/// ago gets `SIGTERM`, and one sent `SIGTERM` more than 30 seconds ago gets
/// `SIGKILL`, each addressed to the pid read; before then nothing is done.
pub proof fn law_round_escalates_on_time(round: ClientRound, close_sent: bool, elapsed_nanos: int)
    requires
        took_step_due(round, close_sent, elapsed_nanos),
    ensures
        round.status is GracefulSent && elapsed_nanos > 15 * NANOS_PER_SEC ==> (round.taken matches Some(
            StepTaken::Signalled(d),
        ) && d@ == (round.pid, Some(SignalKind::Terminate))),
        round.status is TermSent && elapsed_nanos > 30 * NANOS_PER_SEC ==> (round.taken matches Some(
            StepTaken::Signalled(d),
        ) && d@ == (round.pid, Some(SignalKind::Kill))),
        round.status is GracefulSent && elapsed_nanos <= 15 * NANOS_PER_SEC ==> round.taken is None,
        round.status is TermSent && elapsed_nanos <= 30 * NANOS_PER_SEC ==> round.taken is None,
        round.status is KillSent ==> round.taken is None,
        round.status is Alive ==> round.taken is Some,
{
}

} // verus!
