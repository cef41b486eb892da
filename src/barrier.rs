use vstd::prelude::*;
use crate::diag::{description, fault_record, is_fault_record, CallSite, Diagnostic};
use crate::status::StatusCode;
use crate::store::{arena_wf, handle_at, live, with_diag, HandleArena, HandleView};

verus! {

/// How a protected operation ended.
#[derive(Clone, Debug)]
pub enum OperationOutcome {
    /// It returned this code.
    Completed(StatusCode),
    /// It unwound; the failure's text, where it carried one.
    Unwound(Option<String>),
}

/// The code that every intercepted failure is reported with.
pub const FAULT_STATUS: StatusCode = StatusCode::Error;

/// The failure text of an outcome that unwound, as a sequence.
pub open spec fn payload_view(p: Option<String>) -> Option<Seq<char>> {
    match p {
        Some(s) => Some(s@),
        None => None,
    }
}

/// The state of the arena and the code that the barrier leaves after `outcome`
/// on the handle `t`, where `d` is the record added for a failure.
pub open spec fn barrier_result(
    old_arena: Seq<Option<HandleView>>,
    new_arena: Seq<Option<HandleView>>,
    t: int,
    outcome: OperationOutcome,
    site: CallSite,
    r: StatusCode,
) -> bool {
    match outcome {
        OperationOutcome::Completed(c) => r == c && new_arena == old_arena,
        OperationOutcome::Unwound(p) => {
            let d = handle_at(new_arena, t).diags.last();
            &&& r == StatusCode::Error
            &&& is_fault_record(d, description(payload_view(p)), site)
            &&& new_arena == with_diag(old_arena, t, d)
        },
    }
}

/// Turns the outcome of an operation run on the live handle `token` into the
/// code for the caller: a code that the operation returned passes through and
/// the arena stays as it was; a failure adds one internal fault record,
/// attributed to `site`, and yields `Error`.
pub fn finish_protected_call(
    arena: &mut HandleArena,
    token: usize,
    outcome: OperationOutcome,
    site: CallSite,
) -> (r: StatusCode)
    requires
        live(old(arena)@, token as int),
    ensures
        barrier_result(old(arena)@, final(arena)@, token as int, outcome, site, r),
        arena_wf(old(arena)@) ==> arena_wf(final(arena)@),
{
    match outcome {
        OperationOutcome::Completed(code) => code,
        OperationOutcome::Unwound(payload) => {
            let d: Diagnostic = match &payload {
                Some(p) => fault_record(Some(p.as_str()), site),
                None => fault_record(None, site),
            };
            arena.append_diagnostic(token, d);
            assert(handle_at(arena@, token as int).diags.last() == d);
            FAULT_STATUS
        },
    }
}

} // verus!
