use vstd::prelude::*;

verus! {

/// Lifecycle of a statement handle.
#[derive(Clone, Copy, Debug, PartialEq, Eq, Structural)]
pub enum StatementState {
    Allocated,
    Prepared,
    Executed,
    Fetching,
    Closed,
}

/// The operations that move a statement from one state to another.
#[derive(Clone, Copy, Debug, PartialEq, Eq, Structural)]
pub enum StatementOp {
    Prepare,
    Execute,
    Fetch,
    Close,
}

/// The operation was asked of a statement whose state does not allow it.
#[derive(Clone, Copy, Debug, PartialEq, Eq, Structural)]
pub struct InvalidState {
    pub current: StatementState,
    pub op: StatementOp,
}

/// The states from which `op` may start.
pub open spec fn allowed_from(op: StatementOp, s: StatementState) -> bool {
    match op {
        StatementOp::Prepare => s == StatementState::Allocated,
        StatementOp::Execute => s == StatementState::Prepared,
        StatementOp::Fetch => s == StatementState::Executed || s == StatementState::Fetching,
        StatementOp::Close => s != StatementState::Closed,
    }
}

/// The state that `op` leads to.
pub open spec fn target_of(op: StatementOp) -> StatementState {
    match op {
        StatementOp::Prepare => StatementState::Prepared,
        StatementOp::Execute => StatementState::Executed,
        StatementOp::Fetch => StatementState::Fetching,
        StatementOp::Close => StatementState::Closed,
    }
}

/// Whether `s` is in the set `from`.
pub fn state_in(s: StatementState, from: &[StatementState]) -> (r: bool)
    ensures
        r == from@.contains(s),
{
    let mut i: usize = 0;
    while i < from.len()
        invariant
            0 <= i <= from@.len(),
            forall|j: int| 0 <= j < i ==> from@[j] != s,
        decreases from@.len() - i,
    {
        if from[i] == s {
            return true;
        }
        i = i + 1;
    }
    false
}

/// Moves `state` to `to` when it is one of `from`; otherwise leaves it and fails.
pub fn transition(state: &mut StatementState, from: &[StatementState], to: StatementState) -> (r:
    Result<(), StatementState>)
    ensures
        from@.contains(*old(state)) ==> r is Ok && *final(state) == to,
        !from@.contains(*old(state)) ==> r == Err::<(), StatementState>(*old(state))
            && *final(state) == *old(state),
{
    if state_in(*state, from) {
        *state = to;
        Ok(())
    } else {
        Err(*state)
    }
}

/// The state after `op`, or the reason it may not run.
pub fn next_state(current: StatementState, op: StatementOp) -> (r: Result<
    StatementState,
    InvalidState,
>)
    ensures
        allowed_from(op, current) ==> r == Ok::<StatementState, InvalidState>(target_of(op)),
        !allowed_from(op, current) ==> r == Err::<StatementState, InvalidState>(
            InvalidState { current, op },
        ),
{
    let allowed = match op {
        StatementOp::Prepare => current == StatementState::Allocated,
        StatementOp::Execute => current == StatementState::Prepared,
        StatementOp::Fetch => current == StatementState::Executed || current
            == StatementState::Fetching,
        StatementOp::Close => current != StatementState::Closed,
    };
    if !allowed {
        return Err(InvalidState { current, op });
    }
    match op {
        StatementOp::Prepare => Ok(StatementState::Prepared),
        StatementOp::Execute => Ok(StatementState::Executed),
        StatementOp::Fetch => Ok(StatementState::Fetching),
        StatementOp::Close => Ok(StatementState::Closed),
    }
}

} // verus!
