//! How a phase is run: which command selects it, how the operation budget
//! is split across workers, and how many operations may be in flight.
use crate::retry::{lemma_first_success, retry_events, retry_start};
use vstd::prelude::*;
use vstd::string::*;

verus! {

/// The most operations that may be in flight at once, whatever the number
/// of workers.
pub const MAX_IN_FLIGHT: usize = 300;

/// The two phases a run can perform.
#[derive(Clone, Copy, Debug, PartialEq, Eq)]
pub enum Command {
    /// Bulk inserts.
    Load,
    /// The configured mix of transactions.
    Run,
}

/// The phase a command name selects.
pub open spec fn command_of(name: Seq<char>) -> Option<Command> {
    if name == "load"@ {
        Some(Command::Load)
    } else if name == "run"@ {
        Some(Command::Run)
    } else {
        None
    }
}

/// Reads a command name: `load` or `run`.
pub fn parse_command(name: &String) -> (r: Option<Command>)
    ensures
        r == command_of(name@),
{
    let load = String::from_str("load");
    let run = String::from_str("run");
    proof {
        reveal_strlit("load");
        reveal_strlit("run");
    }
    if *name == load {
        Some(Command::Load)
    } else if *name == run {
        Some(Command::Run)
    } else {
        None
    }
}

/// Each worker's share of the operation budget: the budget divided evenly,
/// the remainder dropped. `None` when there is no worker.
pub fn thread_operation_count(operation_count: u64, workers: u64) -> (r: Option<u64>)
    ensures
        r is None <==> workers == 0,
        r matches Some(n) ==> n == operation_count / workers,
{
    if workers == 0 {
        None
    } else {
        Some(operation_count / workers)
    }
}

/// The events that a run of operations emits in all, where `timed_out[k]`
/// gives how the attempts of operation `k` go.
pub open spec fn run_event_count(budget: u64, timed_out: Seq<Seq<bool>>) -> nat
    decreases timed_out.len(),
{
    if timed_out.len() == 0 {
        0
    } else {
        run_event_count(budget, timed_out.drop_last()) + retry_events(
            retry_start(budget),
            timed_out.last(),
        ).len()
    }
}

/// A run whose budget divides evenly among the workers, and whose every
/// operation completes on its first attempt, gives each worker exactly
/// `operation_count / workers` operations and emits exactly
/// `operation_count` events in all.
pub proof fn lemma_clean_run_event_count(
    operation_count: u64,
    workers: u64,
    budget: u64,
    timed_out: Seq<Seq<bool>>,
)
    requires
        workers > 0,
        budget > 0,
        operation_count % workers == 0,
        timed_out.len() == workers * (operation_count / workers),
        forall|k: int|
            0 <= k < timed_out.len() ==> (#[trigger] timed_out[k]).len() > 0 && !timed_out[k][0],
    ensures
        workers * (operation_count / workers) == operation_count,
        run_event_count(budget, timed_out) == operation_count,
{
    assert(workers * (operation_count / workers) == operation_count) by (nonlinear_arith)
        requires
            workers > 0,
            operation_count % workers == 0,
    {
        vstd::arithmetic::div_mod::lemma_fundamental_div_mod(operation_count as int, workers as int);
    }
    lemma_first_success_each(budget, timed_out);
}

proof fn lemma_first_success_each(budget: u64, timed_out: Seq<Seq<bool>>)
    requires
        budget > 0,
        forall|k: int|
            0 <= k < timed_out.len() ==> (#[trigger] timed_out[k]).len() > 0 && !timed_out[k][0],
    ensures
        run_event_count(budget, timed_out) == timed_out.len(),
    decreases timed_out.len(),
{
    if timed_out.len() > 0 {
        let front = timed_out.drop_last();
        assert forall|k: int| 0 <= k < front.len() implies (#[trigger] front[k]).len() > 0
            && !front[k][0] by {
            assert(front[k] == timed_out[k]);
        }
        lemma_first_success_each(budget, front);
        assert(timed_out.last() == timed_out[timed_out.len() - 1]);
        lemma_first_success(budget, timed_out.last());
    }
}

} // verus!
