//! Signals sent to client processes.
use nix::errno::Errno;
use nix::sys::signal::{kill, Signal};
use nix::unistd::Pid;
use vstd::prelude::*;

verus! {

/// The signals this program sends.
#[derive(Clone, Copy, Debug, PartialEq, Eq)]
pub enum SignalKind {
    /// `SIGTERM`: asks the process to exit.
    Terminate,
    /// `SIGKILL`: ends the process.
    Kill,
}

/// Why a signal could not be sent.
#[derive(Clone, Copy, Debug, PartialEq, Eq)]
pub enum SignalError {
    /// `EPERM`: the process exists but may not be signalled by us.
    PermissionDenied,
    /// `ESRCH`: there is no such process.
    NoSuchProcess,
    /// Any other `errno`, by number.
    Other(i32),
}

/// The receipt of a `kill` call that went through: the process it was
/// addressed to and the signal it carried (`None` for a probe). Only
/// `kill_process` makes one.
#[derive(Clone, Copy, Debug, PartialEq, Eq)]
pub struct Delivery {
    pid: i32,
    signal: Option<SignalKind>,
}

impl View for Delivery {
    type V = (i32, Option<SignalKind>);

    closed spec fn view(&self) -> (i32, Option<SignalKind>) {
        (self.pid, self.signal)
    }
}

impl Delivery {
    /// The process the signal went to.
    pub fn pid(&self) -> (r: i32)
        ensures
            r == self@.0,
    {
        self.pid
    }

    /// The signal that was sent.
    pub fn signal(&self) -> (r: Option<SignalKind>)
        ensures
            r == self@.1,
    {
        self.signal
    }
}

/// A `kill` call that the system refused: the process it was addressed to,
/// the signal it carried (`None` for a probe), and the reason. Only
/// `kill_process` makes one.
#[derive(Clone, Copy, Debug, PartialEq, Eq)]
pub struct Refusal {
    pid: i32,
    signal: Option<SignalKind>,
    error: SignalError,
}

impl View for Refusal {
    type V = (i32, Option<SignalKind>, SignalError);

    closed spec fn view(&self) -> (i32, Option<SignalKind>, SignalError) {
        (self.pid, self.signal, self.error)
    }
}

impl Refusal {
    /// The process the signal was addressed to.
    pub fn pid(&self) -> (r: i32)
        ensures
            r == self@.0,
    {
        self.pid
    }

    /// The signal that was refused.
    pub fn signal(&self) -> (r: Option<SignalKind>)
        ensures
            r == self@.1,
    {
        self.signal
    }

    /// The call that was refused: the process and the signal.
    pub open spec fn attempt(self) -> (i32, Option<SignalKind>) {
        (self@.0, self@.1)
    }

    /// Why the system refused it.
    pub fn error(&self) -> (r: SignalError)
        ensures
            r == self@.2,
    {
        self.error
    }
}

/// `nix::sys::signal::kill` on `Pid::from_raw(pid)`; with `None` no signal is
/// sent and only the process's existence is checked. Whether the call goes
/// through depends on the processes of the machine, so that is left open;
/// either way, the receipt or the refusal names the `pid` and `signal` handed
/// to it.
#[verifier::external_body]
pub(crate) fn kill_process(pid: i32, signal: Option<SignalKind>) -> (r: Result<Delivery, Refusal>)
    ensures
        r matches Ok(d) ==> d@ == (pid, signal),
        r matches Err(f) ==> f.attempt() == (pid, signal),
{
    let sig = match signal {
        Some(SignalKind::Terminate) => Some(Signal::SIGTERM),
        Some(SignalKind::Kill) => Some(Signal::SIGKILL),
        None => None,
    };
    match kill(Pid::from_raw(pid), sig) {
        Ok(()) => Ok(Delivery { pid, signal }),
        Err(Errno::EPERM) => Err(Refusal { pid, signal, error: SignalError::PermissionDenied }),
        Err(Errno::ESRCH) => Err(Refusal { pid, signal, error: SignalError::NoSuchProcess }),
        Err(e) => Err(Refusal { pid, signal, error: SignalError::Other(e as i32) }),
    }
}

/// `sent` is one delivery of `signal` to each of `pids`, in order.
pub open spec fn delivered_in_order(sent: Seq<Delivery>, pids: Seq<i32>, signal: SignalKind) -> bool {
    &&& sent.len() == pids.len()
    &&& forall|i: int| 0 <= i < sent.len() ==> #[trigger] sent[i]@ == (pids[i], Some(signal))
}

/// A round of `SIGKILL`s stopped at the signal the system `refused`;
/// `delivered` holds the receipts of the signals sent before it.
#[derive(Clone, Debug, PartialEq, Eq)]
pub struct ForceKillError {
    pub delivered: Vec<Delivery>,
    pub refused: Refusal,
}

/// What a probe (a signal-less `kill`) says of a process: it is alive if the
/// probe went through, or was refused for want of permission.
pub open spec fn probe_says_alive(outcome: Result<(), SignalError>) -> bool {
    match outcome {
        Ok(()) => true,
        Err(SignalError::PermissionDenied) => true,
        Err(_) => false,
    }
}

/// Reads the outcome of a probe.
pub fn alive_after_probe(outcome: Result<(), SignalError>) -> (r: bool)
    ensures
        r == probe_says_alive(outcome),
{
    match outcome {
        Ok(()) => true,
        Err(SignalError::PermissionDenied) => true,
        Err(_) => false,
    }
}

/// `outcome` is the outcome of a probe of process `pid`: a signal-less
/// `kill` addressed to it.
pub open spec fn probed(outcome: Result<Delivery, Refusal>, pid: i32) -> bool {
    match outcome {
        Ok(d) => d@ == (pid, None::<SignalKind>),
        Err(f) => f.attempt() == (pid, None::<SignalKind>),
    }
}

/// What the outcome of a probe says of the process.
pub open spec fn probe_answer(outcome: Result<Delivery, Refusal>) -> bool {
    match outcome {
        Ok(_) => probe_says_alive(Ok(())),
        Err(f) => probe_says_alive(Err(f@.2)),
    }
}

/// A probe of a process: its outcome, and what that says.
#[derive(Clone, Copy, Debug, PartialEq, Eq)]
pub struct Probe {
    /// Whether the process is still running.
    pub alive: bool,
    /// The signal-less `kill` the answer was read from.
    pub outcome: Result<Delivery, Refusal>,
}

/// Whether process `pid` is still running (if we may not signal it, it is
/// assumed to be): probes it with a signal-less `kill` and reads the outcome.
pub fn is_proc_alive(pid: i32) -> (r: Probe)
    ensures
        probed(r.outcome, pid),
        r.alive == probe_answer(r.outcome),
{
    let outcome = kill_process(pid, None);
    let alive = match &outcome {
        Ok(_) => alive_after_probe(Ok(())),
        Err(f) => alive_after_probe(Err(f.error())),
    };
    Probe { alive, outcome }
}

} // verus!
