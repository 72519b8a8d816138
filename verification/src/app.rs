//! The clients still to close, refreshed from the compositor each round.
use vstd::prelude::*;

use crate::backends::{
    closes_by_method, fails_by_method, BackendError, Client, ClientKiller, KillError, WaylandBackend,
};
use crate::client_killer::StepTaken;
use crate::order::ClientOrd;
use crate::signal::{is_proc_alive, probe_answer, probed, Delivery, Refusal};
use crate::text::str_eq;
use crate::APP_ID;

verus! {

/// The clients this program may close, and the processes to signal once
/// their windows are gone.
pub struct AppState<B: WaylandBackend> {
    pub clients: Vec<Client>,
    /// The old clients whose windows are gone but whose processes still
    /// run. Some apps close their windows but leave processes behind: when
    /// kitty exits, its window closes but a `.kitty-wrapped` process is left,
    /// and kitty is not really gone until it ends. Nothing signals these yet.
    pub to_be_killed: Vec<Client>,
    pub backend: B,
}

/// A client this program may close: not its own window, not a pid that
/// would signal a process group, and not the compositor.
pub open spec fn safe_to_kill(c: Client, compositor: i32) -> bool {
    c.app_id@ != APP_ID@ && c.pid > 0 && c.pid != compositor
}

/// The clients of `s` that are safe to kill, in order.
pub open spec fn safe_clients(s: Seq<Client>, compositor: i32) -> Seq<Client>
    decreases s.len(),
{
    if s.len() == 0 {
        seq![]
    } else {
        let r = safe_clients(s.drop_last(), compositor);
        if safe_to_kill(s.last(), compositor) {
            r.push(s.last())
        } else {
            r
        }
    }
}

/// Every client of `s` is safe to kill, the compositor's pid being `compositor`.
pub open spec fn all_safe(s: Seq<Client>, compositor: i32) -> bool {
    forall|i: int| 0 <= i < s.len() ==> #[trigger] safe_to_kill(s[i], compositor)
}

/// One refresh takes the clients from `before` to `after`, the compositor's
/// pid being `compositor`: they stay as they were (the compositor could not
/// list them), or they are the clients of a new listing that are safe to
/// kill.
pub open spec fn refresh_step(before: Seq<Client>, after: Seq<Client>, compositor: i32) -> bool {
    ||| after == before
    ||| exists|fresh: Seq<Client>| after == #[trigger] safe_clients(fresh, compositor)
}

/// What a round did: whether every client is gone, and the close step taken
/// for each client, in order (none in a dry run).
#[derive(Clone, Debug, PartialEq, Eq)]
pub struct RoundReport {
    pub complete: bool,
    pub steps: Vec<StepTaken>,
}

/// Why a round of closing stopped.
#[derive(Clone, Debug, PartialEq, Eq)]
pub enum RoundError {
    /// The compositor could not list the clients.
    Refresh(BackendError),
    /// A client could not be asked to close.
    Kill(KillError),
}

/// `c` is listed in `list`, equal in every field.
pub open spec fn listed(list: Seq<Client>, c: Client) -> bool {
    exists|i: int| 0 <= i < list.len() && (#[trigger] list[i])@ == c@
}

/// The clients of `old` that are gone from `current` but whose process is
/// still alive, in order; `alive[i]` says whether the process of `old[i]`
/// still ran when it was looked at.
pub open spec fn leftovers(old: Seq<Client>, current: Seq<Client>, alive: Seq<bool>) -> Seq<Client>
    decreases old.len(),
{
    if old.len() == 0 {
        seq![]
    } else {
        let r = leftovers(old.drop_last(), current, alive);
        if !listed(current, old.last()) && alive[old.len() - 1] {
            r.push(old.last())
        } else {
            r
        }
    }
}

/// `outcomes` hold a probe of each client of `old` that is gone from
/// `current`, and `alive` what each probe says; the clients still listed are
/// not probed.
pub open spec fn answers_of_probes(
    old: Seq<Client>,
    current: Seq<Client>,
    outcomes: Seq<Result<Delivery, Refusal>>,
    alive: Seq<bool>,
) -> bool {
    &&& outcomes.len() == old.len()
    &&& alive.len() == old.len()
    &&& forall|i: int|
        0 <= i < old.len() && !listed(current, old[i]) ==> probed(#[trigger] outcomes[i], old[i].pid)
            && alive[i] == probe_answer(outcomes[i])
}

/// Whether `c` is listed in `list`.
fn is_listed(list: &Vec<Client>, c: &Client) -> (r: bool)
    ensures
        r == listed(list@, *c),
{
    let n = list.len();
    let mut i: usize = 0;
    while i < n
        invariant
            n == list@.len(),
            i <= n,
            forall|j: int| 0 <= j < i ==> (#[trigger] list@[j])@ != c@,
        decreases n - i,
    {
        if list[i].same_client(c) {
            return true;
        }
        i = i + 1;
    }
    false
}

impl<B: WaylandBackend> AppState<B> {
    /// Every client is safe to kill: not this program's own window, not a
    /// process group, and not this state's compositor.
    pub open spec fn clients_safe(self) -> bool {
        all_safe(self.clients@, self.backend.compositor_pid())
    }

    /// No clients yet: the first refresh lists them.
    pub fn new(backend: B) -> (r: Self)
        ensures
            r.clients@.len() == 0,
            r.clients_safe(),
            r.to_be_killed@.len() == 0,
            r.backend == backend,
    {
        AppState { clients: Vec::new(), to_be_killed: Vec::new(), backend }
    }

    pub fn get_num_clients(&self) -> (r: usize)
        ensures
            r == self.clients@.len(),
    {
        self.clients.len()
    }

    /// Whether every client has been closed.
    pub fn is_complete(&self) -> (r: bool)
        ensures
            r == (self.clients@.len() == 0),
    {
        self.get_num_clients() == 0
    }

    /// Whether the client may be closed, the compositor's pid being `compositor`.
    pub fn is_safe_to_kill(client: &Client, compositor: i32) -> (r: bool)
        ensures
            r == safe_to_kill(*client, compositor),
    {
        !str_eq(client.app_id.as_str(), APP_ID) && client.pid > 0 && client.pid != compositor
    }

    /// The clients of `fresh` that may be closed, in order.
    pub fn retain_safe(fresh: Vec<Client>, compositor: i32) -> (r: Vec<Client>)
        ensures
            r@ == safe_clients(fresh@, compositor),
    {
        let ghost all = fresh@;
        let mut rest = fresh;
        let mut out: Vec<Client> = Vec::new();
        let ghost mut k: int = 0;
        proof {
            assert(rest@ =~= all.subrange(0, all.len() as int));
            assert(all.subrange(0, 0) =~= Seq::<Client>::empty());
        }
        while rest.len() > 0
            invariant
                0 <= k <= all.len(),
                rest@ == all.subrange(k, all.len() as int),
                out@ == safe_clients(all.subrange(0, k), compositor),
            decreases rest.len(),
        {
            let c = rest.remove(0);
            proof {
                assert(c == all[k]);
                assert(all.subrange(0, k + 1).drop_last() =~= all.subrange(0, k));
            }
            if Self::is_safe_to_kill(&c, compositor) {
                out.push(c);
            }
            proof {
                k = k + 1;
                assert(rest@ =~= all.subrange(k, all.len() as int));
            }
        }
        proof {
            assert(all.subrange(0, k) =~= all);
        }
        out
    }

    /// Lists the clients again: those that may be closed become the clients,
    /// and the old clients that are gone from the list but whose process is
    /// still alive are to be killed. When the backend cannot list the clients
    /// nothing changes.
    pub fn refresh(&mut self) -> (r: Result<(), BackendError>)
        ensures
            final(self).backend == old(self).backend,
            r is Err ==> final(self).clients@ == old(self).clients@ && final(self).to_be_killed@
                == old(self).to_be_killed@,
            r is Ok ==> exists|fresh: Seq<Client>, outcomes: Seq<Result<Delivery, Refusal>>, alive: Seq<bool>|
                final(self).clients@ == safe_clients(fresh, old(self).backend.compositor_pid())
                    && answers_of_probes(
                    old(self).clients@,
                    final(self).clients@,
                    outcomes,
                    alive,
                ) && final(self).to_be_killed@ == leftovers(
                    old(self).clients@,
                    final(self).clients@,
                    alive,
                ),
            r is Ok ==> exists|listing: Seq<Client>|
                old(self).backend.whole_listing(listing) && final(self).clients@ == #[trigger] safe_clients(
                    listing,
                    old(self).backend.compositor_pid(),
                ),
            r is Ok ==> final(self).clients_safe(),
            refresh_step(old(self).clients@, final(self).clients@, old(self).backend.compositor_pid()),
            old(self).clients_safe() ==> final(self).clients_safe(),
    {
        let fresh = match self.backend.open_clients() {
            Ok(v) => v,
            Err(e) => {
                return Err(e);
            },
        };
        let compositor = self.backend.compositor_id();
        self.replace_clients(fresh, compositor);
        proof {
            law_listing_is_safe(fresh@, compositor);
        }
        Ok(())
    }

    /// One round: lists the clients again, then, unless `dry_run`, asks each
    /// in turn to close. Gives whether every client is gone and the close
    /// step taken for each client; a dry run takes none. On an error the
    /// round stops there.
    pub fn run_round(&mut self, dry_run: bool) -> (r: Result<RoundReport, RoundError>)
        ensures
            final(self).backend == old(self).backend,
            r matches Ok(report) ==> report.complete == (final(self).clients@.len() == 0),
            r matches Ok(report) ==> (dry_run ==> report.steps@.len() == 0),
            r matches Ok(report) ==> (!dry_run ==> report.steps@.len() == final(self).clients@.len()
                && forall|i: int|
                0 <= i < report.steps@.len() ==> closes_by_method(
                    #[trigger] report.steps@[i],
                    final(self).clients@[i],
                    final(self).backend.close_requested(final(self).clients@[i]),
                )),
            r matches Err(RoundError::Refresh(_)) ==> final(self).clients@ == old(self).clients@
                && final(self).to_be_killed@ == old(self).to_be_killed@,
            r matches Err(RoundError::Kill(e)) ==> !dry_run && exists|k: int|
                0 <= k < final(self).clients@.len() && e.pid == #[trigger] final(self).clients@[k].pid
                    && fails_by_method(e.cause, final(self).clients@[k]),
            !(r matches Err(RoundError::Refresh(_))) ==> exists|fresh: Seq<Client>|
                final(self).clients@ == safe_clients(fresh, old(self).backend.compositor_pid()),
            !(r matches Err(RoundError::Refresh(_))) ==> exists|listing: Seq<Client>|
                old(self).backend.whole_listing(listing) && final(self).clients@ == #[trigger] safe_clients(
                    listing,
                    old(self).backend.compositor_pid(),
                ),
            refresh_step(old(self).clients@, final(self).clients@, old(self).backend.compositor_pid()),
            old(self).clients_safe() ==> final(self).clients_safe(),
    {
        match self.refresh() {
            Ok(()) => {},
            Err(e) => {
                return Err(RoundError::Refresh(e));
            },
        }
        let mut steps: Vec<StepTaken> = Vec::new();
        if !dry_run {
            let ghost listed = self.clients@;
            let res = ClientKiller::kill_clients(&self.backend, &mut self.clients);
            match res {
                Ok(taken) => {
                    steps = taken;
                },
                Err(e) => {
                    proof {
                        let k = choose|k: int|
                            0 <= k < listed.len() && e.pid == #[trigger] listed[k].pid
                                && e.app_id@ == listed[k].app_id@ && fails_by_method(e.cause, listed[k]);
                        assert(self.clients@[k] == listed[k]);
                    }
                    return Err(RoundError::Kill(e));
                },
            }
        }
        Ok(RoundReport { complete: self.is_complete(), steps })
    }

    /// Takes a new listing of the clients, the compositor's pid being
    /// `compositor`: those that may be closed become the clients, and the old
    /// clients that are gone from the list but whose process is still alive
    /// are to be killed; whether a process is alive is probed.
    pub fn replace_clients(&mut self, fresh: Vec<Client>, compositor: i32)
        ensures
            final(self).backend == old(self).backend,
            final(self).clients@ == safe_clients(fresh@, compositor),
            all_safe(final(self).clients@, compositor),
            exists|outcomes: Seq<Result<Delivery, Refusal>>, alive: Seq<bool>|
                answers_of_probes(old(self).clients@, final(self).clients@, outcomes, alive)
                    && final(self).to_be_killed@ == leftovers(
                    old(self).clients@,
                    final(self).clients@,
                    alive,
                ),
    {
        let ghost fresh_seq = fresh@;
        proof {
            law_listing_is_safe(fresh_seq, compositor);
        }
        let mut old_clients = Self::retain_safe(fresh, compositor);
        std::mem::swap(&mut self.clients, &mut old_clients);
        let ghost all = old_clients@;
        let ghost current = self.clients@;
        assert(current == safe_clients(fresh_seq, compositor));
        assert(all == old(self).clients@);
        let mut rest = old_clients;
        let mut gone: Vec<Client> = Vec::new();
        let ghost mut alive: Seq<bool> = seq![];
        let ghost mut outcomes: Seq<Result<Delivery, Refusal>> = seq![];
        let ghost mut k: int = 0;
        proof {
            assert(rest@ =~= all.subrange(0, all.len() as int));
            assert(all.subrange(0, 0) =~= Seq::<Client>::empty());
        }
        while rest.len() > 0
            invariant
                0 <= k <= all.len(),
                alive.len() == k,
                outcomes.len() == k,
                forall|i: int|
                    0 <= i < k && !listed(current, all[i]) ==> probed(#[trigger] outcomes[i], all[i].pid)
                        && alive[i] == probe_answer(outcomes[i]),
                self.clients@ == current,
                self.backend == old(self).backend,
                rest@ == all.subrange(k, all.len() as int),
                gone@ == leftovers(all.subrange(0, k), current, alive),
            decreases rest.len(),
        {
            let c = rest.remove(0);
            let ghost before = alive;
            proof {
                assert(c == all[k]);
                assert(all.subrange(0, k + 1).drop_last() =~= all.subrange(0, k));
            }
            let mut keep = false;
            let ghost mut outcome: Result<Delivery, Refusal> = vstd::pervasive::arbitrary();
            if !is_listed(&self.clients, &c) {
                let probe = is_proc_alive(c.pid);
                keep = probe.alive;
                proof {
                    outcome = probe.outcome;
                }
            }
            proof {
                alive = alive.push(keep);
                outcomes = outcomes.push(outcome);
                assert(leftovers(all.subrange(0, k), current, alive) == leftovers(
                    all.subrange(0, k),
                    current,
                    before,
                )) by {
                    lemma_leftovers_extend(all.subrange(0, k), current, before, keep);
                }
            }
            if keep {
                gone.push(c);
            }
            proof {
                k = k + 1;
                assert(rest@ =~= all.subrange(k, all.len() as int));
            }
        }
        proof {
            assert(all.subrange(0, k) =~= all);
        }
        self.to_be_killed = gone;
        assert(self.to_be_killed@ == leftovers(all, current, alive));
        assert(answers_of_probes(old(self).clients@, self.clients@, outcomes, alive)
            && self.to_be_killed@ == leftovers(old(self).clients@, self.clients@, alive));
    }
}

/// Looking further along `alive` does not change the leftovers of `old`.
proof fn lemma_leftovers_extend(old: Seq<Client>, current: Seq<Client>, alive: Seq<bool>, b: bool)
    requires
        alive.len() >= old.len(),
    ensures
        leftovers(old, current, alive.push(b)) == leftovers(old, current, alive),
    decreases old.len(),
{
    if old.len() > 0 {
        lemma_leftovers_extend(old.drop_last(), current, alive, b);
    }
}

/// A listing kept by `safe_clients` holds only clients safe to kill, so none
/// that this program must never close.
pub proof fn law_listing_is_safe(fresh: Seq<Client>, compositor: i32)
    ensures
        all_safe(safe_clients(fresh, compositor), compositor),
{
    assert forall|i: int| 0 <= i < safe_clients(fresh, compositor).len() implies #[trigger] safe_to_kill(
        safe_clients(fresh, compositor)[i],
        compositor,
    ) by {
        law_clients_are_safe_to_kill(fresh, compositor, i);
    }
}

/// A listing keeps exactly its clients that are safe to kill, windows and
/// layers alike: a client is kept if and only if it was listed and is safe.
pub proof fn law_listing_keeps_exactly_the_safe_clients(listing: Seq<Client>, compositor: i32, c: Client)
    ensures
        safe_clients(listing, compositor).contains(c) <==> (listing.contains(c) && safe_to_kill(
            c,
            compositor,
        )),
    decreases listing.len(),
{
    if listing.len() > 0 {
        let init = listing.drop_last();
        let kept = safe_clients(init, compositor);
        law_listing_keeps_exactly_the_safe_clients(init, compositor, c);
        assert(listing =~= init.push(listing.last()));
        if safe_clients(listing, compositor).contains(c) {
            if safe_to_kill(listing.last(), compositor) {
                assert(safe_clients(listing, compositor) == kept.push(listing.last()));
                if c != listing.last() {
                    let i = choose|i: int| 0 <= i < kept.push(listing.last()).len() && kept.push(listing.last())[i] == c;
                    assert(kept[i] == c);
                    assert(kept.contains(c));
                }
            }
            if listing.last() != c {
                let j = choose|j: int| 0 <= j < init.len() && init[j] == c;
                assert(listing[j] == c);
            } else {
                assert(listing[listing.len() - 1] == c);
            }
        }
        if listing.contains(c) && safe_to_kill(c, compositor) {
            let j = choose|j: int| 0 <= j < listing.len() && listing[j] == c;
            if j < listing.len() - 1 {
                assert(init[j] == c);
                assert(init.contains(c));
                let i = choose|i: int| 0 <= i < kept.len() && kept[i] == c;
                if safe_to_kill(listing.last(), compositor) {
                    assert(kept.push(listing.last())[i] == c);
                }
            } else {
                assert(safe_clients(listing, compositor) == kept.push(c));
                assert(kept.push(c)[kept.len() as int] == c);
            }
        }
    }
}

/// However many refreshes and rounds a state has gone through since it was
/// made, every client is safe to kill: none is this program's own window, a
/// process group, or the compositor. `history` holds its clients after each
/// call, from the empty list `new` starts with, the compositor's pid being
/// `compositor`.
pub proof fn law_clients_stay_safe(history: Seq<Seq<Client>>, compositor: i32)
    requires
        history.len() > 0,
        history[0].len() == 0,
        forall|i: int|
            0 <= i < history.len() - 1 ==> #[trigger] refresh_step(history[i], history[i + 1], compositor),
    ensures
        forall|i: int| 0 <= i < history.len() ==> all_safe(#[trigger] history[i], compositor),
    decreases history.len(),
{
    if history.len() > 1 {
        let prefix = history.drop_last();
        assert forall|i: int| 0 <= i < prefix.len() - 1 implies #[trigger] refresh_step(
            prefix[i],
            prefix[i + 1],
            compositor,
        ) by {
            assert(refresh_step(history[i], history[i + 1], compositor));
        }
        law_clients_stay_safe(prefix, compositor);
        let last = history.len() - 1;
        let j = last - 1;
        assert(refresh_step(history[j], history[j + 1], compositor));
        assert(j + 1 == last);
        assert(all_safe(prefix[j], compositor));
        if history[last] != history[j] {
            let fresh = choose|fresh: Seq<Client>| history[last] == #[trigger] safe_clients(fresh, compositor);
            law_listing_is_safe(fresh, compositor);
        }
        assert forall|i: int| 0 <= i < history.len() implies all_safe(#[trigger] history[i], compositor) by {
            if i < last {
                assert(history[i] == prefix[i]);
            }
        }
    }
}

/// After a refresh, no client is this program's own window, a process group,
/// or the compositor.
pub proof fn law_clients_are_safe_to_kill(fresh: Seq<Client>, compositor: i32, i: int)
    requires
        0 <= i < safe_clients(fresh, compositor).len(),
    ensures
        safe_to_kill(safe_clients(fresh, compositor)[i], compositor),
        fresh.contains(safe_clients(fresh, compositor)[i]),
    decreases fresh.len(),
{
    if fresh.len() > 0 {
        let r = safe_clients(fresh.drop_last(), compositor);
        if i < r.len() {
            law_clients_are_safe_to_kill(fresh.drop_last(), compositor, i);
            let k = choose|k: int| 0 <= k < fresh.drop_last().len() && fresh.drop_last()[k] == r[i];
            assert(fresh[k] == r[i]);
        } else {
            assert(fresh[fresh.len() - 1] == safe_clients(fresh, compositor)[i]);
        }
    }
}

/// The processes to be killed are old clients that are no longer listed.
pub proof fn law_leftovers_are_gone(old: Seq<Client>, current: Seq<Client>, alive: Seq<bool>, i: int)
    requires
        alive.len() == old.len(),
        0 <= i < leftovers(old, current, alive).len(),
    ensures
        !listed(current, leftovers(old, current, alive)[i]),
        old.contains(leftovers(old, current, alive)[i]),
    decreases old.len(),
{
    if old.len() > 0 {
        let r = leftovers(old.drop_last(), current, alive);
        if i < r.len() {
            lemma_leftovers_extend_rev(old.drop_last(), current, alive);
            law_leftovers_are_gone(old.drop_last(), current, alive.drop_last(), i);
            let k = choose|k: int| 0 <= k < old.drop_last().len() && old.drop_last()[k] == r[i];
            assert(old[k] == r[i]);
        } else {
            assert(old[old.len() - 1] == leftovers(old, current, alive)[i]);
        }
    }
}

proof fn lemma_leftovers_extend_rev(old: Seq<Client>, current: Seq<Client>, alive: Seq<bool>)
    requires
        alive.len() == old.len() + 1,
    ensures
        leftovers(old, current, alive) == leftovers(old, current, alive.drop_last()),
{
    assert(alive =~= alive.drop_last().push(alive.last()));
    lemma_leftovers_extend(old, current, alive.drop_last(), alive.last());
}

} // verus!
