//! The child processes that must not outlive the launcher, and how long they are waited for.
use vstd::prelude::*;

pub mod port;

verus! {

/// How long an update of the repository may take.
pub const GIT_UPDATE_TIMEOUT_MS: u64 = 600_000;

/// The pause between two looks at a child.
pub const WAIT_PAUSE_MS: u64 = 100;

/// How long the kill of a process group is tried.
pub const KILL_TIMEOUT_MS: u64 = 2_000;

/// The pause between two tries to kill a process group.
pub const KILL_PAUSE_MS: u64 = 20;

/// How long a kill that was accepted is given to take effect.
pub const KILL_SETTLE_MS: u64 = 100;

/// A list of numbers without `pid`, in its order.
pub open spec fn without(pids: Seq<u32>, pid: u32) -> Seq<u32>
    decreases pids.len(),
{
    if pids.len() == 0 {
        pids
    } else {
        let before = without(pids.drop_last(), pid);
        if pids.last() != pid {
            before.push(pids.last())
        } else {
            before
        }
    }
}

/// Registers a process group, to be killed when the launcher exits.
pub fn register_for_exit(registry: &mut Vec<u32>, pid: u32)
    ensures
        final(registry)@ == old(registry)@.push(pid),
{
    registry.push(pid);
}

/// Strikes a process group off, since its number may be given to another.
pub fn unregister_for_exit(registry: &mut Vec<u32>, pid: u32)
    ensures
        final(registry)@ == without(old(registry)@, pid),
{
    let ghost all = registry@;
    let mut kept: Vec<u32> = Vec::new();
    let mut i: usize = 0;
    assert(all.take(0) =~= Seq::<u32>::empty());
    while i < registry.len()
        invariant
            i <= registry@.len(),
            all == registry@,
            kept@ == without(all.take(i as int), pid),
        decreases registry@.len() - i,
    {
        assert(all.take(i + 1).drop_last() =~= all.take(i as int));
        if registry[i] != pid {
            kept.push(registry[i]);
        }
        i = i + 1;
    }
    assert(all.take(all.len() as int) =~= all);
    *registry = kept;
}

/// Whether the launcher keeps track of the process group `pid`.
pub fn is_registered(registry: &[u32], pid: u32) -> (r: bool)
    ensures
        r == registry@.contains(pid),
{
    let mut i: usize = 0;
    while i < registry.len()
        invariant
            i <= registry@.len(),
            forall|j: int| 0 <= j < i ==> registry@[j] != pid,
        decreases registry@.len() - i,
    {
        if registry[i] == pid {
            return true;
        }
        i = i + 1;
    }
    false
}

/// Empties the registry when the launcher exits, and hands out the process groups to be killed.
pub fn kill_registered_groups(registry: &mut Vec<u32>) -> (r: Vec<u32>)
    ensures
        r@ == old(registry)@,
        final(registry)@ == Seq::<u32>::empty(),
{
    let mut taken: Vec<u32> = Vec::new();
    std::mem::swap(&mut taken, registry);
    taken
}

/// A process group that was struck off is not registered any more; every other one stays as it is,
/// and striking it off again changes nothing.
pub proof fn unregistering_forgets_one(pids: Seq<u32>, pid: u32, other: u32)
    ensures
        !without(pids, pid).contains(pid),
        other != pid ==> without(pids, pid).contains(other) == pids.contains(other),
        without(without(pids, pid), pid) == without(pids, pid),
    decreases pids.len(),
{
    if pids.len() > 0 {
        let front = pids.drop_last();
        unregistering_forgets_one(front, pid, other);
        let before = without(front, pid);
        let all = without(pids, pid);
        if pids.last() != pid {
            assert(all.drop_last() =~= before);
            assert forall|i: int| 0 <= i < all.len() implies all[i] != pid by {
                if i < before.len() {
                    assert(before[i] == all[i]);
                    assert(before.contains(before[i]));
                }
            }
        }
        if other != pid {
            if pids.contains(other) {
                let k = choose|k: int| 0 <= k < pids.len() && pids[k] == other;
                if k < front.len() {
                    assert(front[k] == other);
                    let m = choose|m: int| 0 <= m < before.len() && before[m] == other;
                    assert(all[m] == other);
                } else {
                    assert(all[all.len() - 1] == other);
                }
            }
            if all.contains(other) {
                let k = choose|k: int| 0 <= k < all.len() && all[k] == other;
                if k < before.len() {
                    assert(before[k] == other);
                    let m = choose|m: int| 0 <= m < front.len() && front[m] == other;
                    assert(pids[m] == other);
                } else {
                    assert(pids[pids.len() - 1] == other);
                }
            }
        }
    }
}

/// A process group that is registered and then struck off leaves the registry as it was, if it was
/// not there before.
pub proof fn unregistering_undoes_registering(pids: Seq<u32>, pid: u32)
    requires
        !pids.contains(pid),
    ensures
        without(pids.push(pid), pid) == pids,
{
    assert(pids.push(pid).drop_last() =~= pids);
    nothing_to_forget(pids, pid);
}

proof fn nothing_to_forget(pids: Seq<u32>, pid: u32)
    requires
        !pids.contains(pid),
    ensures
        without(pids, pid) == pids,
    decreases pids.len(),
{
    if pids.len() > 0 {
        assert(pids[pids.len() - 1] != pid);
        assert forall|k: int| 0 <= k < pids.drop_last().len() implies pids.drop_last()[k] != pid by {
            assert(pids[k] != pid);
        }
        nothing_to_forget(pids.drop_last(), pid);
        assert(pids.drop_last().push(pids.last()) =~= pids);
    }
}

/// What is to be done next while a child is waited for.
#[derive(Clone, Copy, Debug, PartialEq, Eq, Structural)]
pub enum WaitStep {
    /// It has exited.
    Exited,
    /// Its time is up: kill its group.
    Kill,
    /// Look again after `WAIT_PAUSE_MS`.
    Pause,
}

/// Decides what is to be done after a look at a child that is waited for until `deadline`.
pub fn wait_with_timeout(exited: bool, now: u64, deadline: u64) -> (r: WaitStep)
    ensures
        r == (if exited {
            WaitStep::Exited
        } else if now >= deadline {
            WaitStep::Kill
        } else {
            WaitStep::Pause
        }),
{
    if exited {
        WaitStep::Exited
    } else if now >= deadline {
        WaitStep::Kill
    } else {
        WaitStep::Pause
    }
}

/// What was seen while a process group is killed.
#[derive(Clone, Copy, Debug, PartialEq, Eq, Structural)]
pub enum KillEvent {
    /// Whether its leader is gone.
    Looked { gone: bool },
    /// Whether the signal was accepted, and the time.
    Signalled { accepted: bool, now: u64 },
}

/// What is to be done next while a process group is killed.
#[derive(Clone, Copy, Debug, PartialEq, Eq, Structural)]
pub enum KillStep {
    /// Send the signal.
    Signal,
    /// Wait for `KILL_SETTLE_MS`; nothing else is left to do.
    Settle,
    /// Look again after `KILL_PAUSE_MS`.
    Pause,
    /// Nothing is left to do.
    Over,
}

/// Decides how a process group is killed: the signal is sent until it is accepted, the leader is
/// gone or the time is up.
pub fn kill_process_group(event: KillEvent, deadline: u64) -> (r: KillStep)
    ensures
        r == (match event {
            KillEvent::Looked { gone } => if gone {
                KillStep::Over
            } else {
                KillStep::Signal
            },
            KillEvent::Signalled { accepted, now } => if accepted {
                KillStep::Settle
            } else if now >= deadline {
                KillStep::Over
            } else {
                KillStep::Pause
            },
        }),
{
    match event {
        KillEvent::Looked { gone } => {
            if gone {
                KillStep::Over
            } else {
                KillStep::Signal
            }
        },
        KillEvent::Signalled { accepted, now } => {
            if accepted {
                KillStep::Settle
            } else if now >= deadline {
                KillStep::Over
            } else {
                KillStep::Pause
            }
        },
    }
}

/// Striking a process group off takes out every entry of it and nothing else; the others keep their
/// order.
pub proof fn unregistering_keeps_the_others(pids: Seq<u32>, pid: u32)
    ensures
        without(pids, pid) == pids.filter(|p: u32| p != pid),
    decreases pids.len(),
{
    reveal(Seq::filter);
    if pids.len() > 0 {
        unregistering_keeps_the_others(pids.drop_last(), pid);
    }
}

} // verus!
