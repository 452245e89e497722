//! The decision core of the transaction reaper.
//!
//! The surrounding manager owns open transactions and a background task that
//! periodically rolls back the ones that overran their allowance, or all of
//! them once the manager is shut down.  The timing decision itself is pure
//! and lives here: given each transaction's state, the current instant and
//! the allowance, it names the entries to roll back.  Instants are plain
//! milliseconds, supplied by the caller.

use vstd::prelude::*;

verus! {

/// The lifecycle state of one managed transaction, stamped with the
/// instant (in milliseconds) at which it entered the state.
#[derive(Clone, Copy, Debug, PartialEq, Eq, Structural)]
pub enum TxState {
    StateBegin(u64),
    StateFinish(u64),
}

/// Whether a transaction in state `st` has overrun the allowance at `now`:
/// only an open transaction can, strictly after `timeout` milliseconds.
pub open spec fn spec_expired(st: TxState, now: u64, timeout: u64) -> bool {
    match st {
        TxState::StateBegin(t) => t + timeout < now,
        TxState::StateFinish(_) => false,
    }
}

/// The indexes of the expired entries, in order.
pub open spec fn due_indexes(s: Seq<TxState>, now: u64, timeout: u64) -> Seq<usize>
    decreases s.len(),
{
    if s.len() == 0 {
        Seq::empty()
    } else {
        let rest = due_indexes(s.drop_last(), now, timeout);
        if spec_expired(s.last(), now, timeout) {
            rest.push((s.len() - 1) as usize)
        } else {
            rest
        }
    }
}

/// The indexes of all entries, in order.
pub open spec fn all_indexes(s: Seq<TxState>) -> Seq<usize>
    decreases s.len(),
{
    if s.len() == 0 {
        Seq::empty()
    } else {
        all_indexes(s.drop_last()).push((s.len() - 1) as usize)
    }
}

/// Whether one transaction has overrun the allowance.
pub fn expired(st: &TxState, now_ms: u64, timeout_ms: u64) -> (r: bool)
    ensures
        r == spec_expired(*st, now_ms, timeout_ms),
{
    match st {
        TxState::StateBegin(t) => match t.checked_add(timeout_ms) {
            Some(deadline) => now_ms > deadline,
            None => false,
        },
        TxState::StateFinish(_) => false,
    }
}

/// Which transactions the polling check rolls back: every expired one while
/// the manager is alive, and every one once it is not.  The result lists
/// entry indexes in ascending order.
pub fn rollback_decision(states: &Vec<TxState>, alive: bool, now_ms: u64, timeout_ms: u64) -> (ids:
    Vec<usize>)
    ensures
        alive ==> ids@ == due_indexes(states@, now_ms, timeout_ms),
        !alive ==> ids@ == all_indexes(states@),
{
    let mut ids: Vec<usize> = Vec::new();
    let mut i: usize = 0;
    proof {
        assert(states@.subrange(0, 0) =~= Seq::<TxState>::empty());
    }
    while i < states.len()
        invariant
            i <= states@.len(),
            alive ==> ids@ == due_indexes(states@.subrange(0, i as int), now_ms, timeout_ms),
            !alive ==> ids@ == all_indexes(states@.subrange(0, i as int)),
        decreases states@.len() - i,
    {
        proof {
            assert(states@.subrange(0, i + 1 as int).drop_last() =~= states@.subrange(0, i as int));
            assert(states@.subrange(0, i + 1 as int).last() == states@[i as int]);
        }
        if !alive || expired(&states[i], now_ms, timeout_ms) {
            ids.push(i);
        }
        i = i + 1;
    }
    proof {
        assert(states@.subrange(0, states@.len() as int) =~= states@);
    }
    ids
}

/// Whether a transaction identifier may open a transaction: it must not be
/// empty.
pub fn begin_allowed(tx_id: &str) -> (r: bool)
    ensures
        r == (tx_id@.len() > 0),
{
    tx_id.unicode_len() > 0
}

} // verus!
