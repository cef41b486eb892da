use vstd::prelude::*;
use crate::barrier::{barrier_result, payload_view, OperationOutcome};
use crate::diag::{decimal, description, fault_message, is_fault_record, CallSite, Diagnostic, FAULT_MARKER};
use crate::status::StatusCode;
use crate::store::{
    diag_lookup, handle_at, live, live_of_kind, with_diag, HandleBody, HandleKind, HandleView,
};

verus! {

/// The arena after the records `ds` are added, in order, to the handle `t`.
pub open spec fn with_diags(v: Seq<Option<HandleView>>, t: int, ds: Seq<Diagnostic>) -> Seq<
    Option<HandleView>,
>
    decreases ds.len(),
{
    if ds.len() == 0 {
        v
    } else {
        with_diag(with_diags(v, t, ds.drop_last()), t, ds.last())
    }
}

/// An operation that completes leaves every record where it was, and its own
/// code is what the caller gets.
pub proof fn law_completion_passes_through(
    old_arena: Seq<Option<HandleView>>,
    new_arena: Seq<Option<HandleView>>,
    t: int,
    code: StatusCode,
    site: CallSite,
    r: StatusCode,
)
    requires
        live(old_arena, t),
        barrier_result(old_arena, new_arena, t, OperationOutcome::Completed(code), site, r),
    ensures
        r == code,
        handle_at(new_arena, t).diags == handle_at(old_arena, t).diags,
        forall|u: int, n: int| diag_lookup(new_arena, u, n) == diag_lookup(old_arena, u, n),
{
}

/// A failure, whatever its text, yields `Error` and exactly one new record,
/// whose message starts with the internal fault marker and is not the
/// failure's text itself.
pub proof fn law_failure_reported_once(
    old_arena: Seq<Option<HandleView>>,
    new_arena: Seq<Option<HandleView>>,
    t: int,
    payload: Option<String>,
    site: CallSite,
    r: StatusCode,
)
    requires
        live(old_arena, t),
        barrier_result(old_arena, new_arena, t, OperationOutcome::Unwound(payload), site, r),
    ensures
        r == StatusCode::Error,
        handle_at(new_arena, t).diags.len() == handle_at(old_arena, t).diags.len() + 1,
        handle_at(new_arena, t).diags.drop_last() == handle_at(old_arena, t).diags,
        ({
            let m = handle_at(new_arena, t).diags.last().message@;
            &&& m.len() > FAULT_MARKER@.len()
            &&& m.subrange(0, FAULT_MARKER@.len() as int) == FAULT_MARKER@
            &&& payload matches Some(p) ==> m != p@
        }),
{
    let d = handle_at(new_arena, t).diags.last();
    assert(handle_at(new_arena, t).diags =~= handle_at(old_arena, t).diags.push(d));
    assert(handle_at(new_arena, t).diags.drop_last() =~= handle_at(old_arena, t).diags);
    lemma_fault_message_marked(
        description(payload_view(payload)),
        site,
    );
}

/// Every fault message starts with the marker, and is longer than the marker
/// and the failure's text together.
pub proof fn lemma_fault_message_marked(desc: Seq<char>, site: CallSite)
    ensures
        fault_message(desc, site).subrange(0, FAULT_MARKER@.len() as int) == FAULT_MARKER@,
        fault_message(desc, site).len() > FAULT_MARKER@.len() + desc.len(),
{
    let m = fault_message(desc, site);
    let rest = desc + " (in "@ + site.function@ + " at "@ + site.file@ + ":"@ + decimal(
        site.line as nat,
    ) + ")"@;
    reveal_strlit(")");
    assert(m =~= FAULT_MARKER@ + rest);
    assert(m.subrange(0, FAULT_MARKER@.len() as int) =~= FAULT_MARKER@);
}

/// Records of the handle `t` added one after another all stay, in the order
/// they were added, after those it held: none is lost and none is repeated.
pub proof fn law_records_accumulate(v: Seq<Option<HandleView>>, t: int, ds: Seq<Diagnostic>)
    requires
        live(v, t),
    ensures
        with_diags(v, t, ds).len() == v.len(),
        live(with_diags(v, t, ds), t),
        handle_at(with_diags(v, t, ds), t).diags == handle_at(v, t).diags + ds,
        handle_at(with_diags(v, t, ds), t).diags.len() == handle_at(v, t).diags.len() + ds.len(),
        forall|u: int|
            1 <= u <= v.len() && u != t ==> #[trigger] with_diags(v, t, ds)[u - 1] == v[u - 1],
    decreases ds.len(),
{
    if ds.len() == 0 {
        assert(handle_at(v, t).diags + ds =~= handle_at(v, t).diags);
    } else {
        law_records_accumulate(v, t, ds.drop_last());
        let w = with_diags(v, t, ds.drop_last());
        assert(handle_at(with_diag(w, t, ds.last()), t).diags =~= handle_at(v, t).diags + ds);
    }
}

/// Changing a statement's state leaves every answer to a record request as it was.
pub proof fn law_lookup_ignores_state(
    v: Seq<Option<HandleView>>,
    t: int,
    body: HandleBody,
    u: int,
    n: int,
)
    requires
        live(v, t),
    ensures
        diag_lookup(v.update(t - 1, Some(HandleView { body, ..handle_at(v, t) })), u, n)
            == diag_lookup(v, u, n),
{
    let w = v.update(t - 1, Some(HandleView { body, ..handle_at(v, t) }));
    if live(v, u) {
        assert(handle_at(w, u).diags == handle_at(v, u).diags);
    }
}

/// The null token and a freed token name no handle of any kind.
pub proof fn law_freed_token_is_invalid(v: Seq<Option<HandleView>>, t: int, kind: HandleKind)
    requires
        1 <= t <= v.len(),
    ensures
        !live_of_kind(v, 0, kind),
        !live_of_kind(v.update(t - 1, None), t, kind),
{
}

/// `arenas` runs through failures on the handle `t`, one after another: step
/// `i` is the barrier reporting `payloads[i]` at `sites[i]` with `codes[i]`.
pub open spec fn failure_run(
    arenas: Seq<Seq<Option<HandleView>>>,
    t: int,
    payloads: Seq<Option<String>>,
    sites: Seq<CallSite>,
    codes: Seq<StatusCode>,
) -> bool {
    &&& arenas.len() == payloads.len() + 1
    &&& sites.len() == payloads.len()
    &&& codes.len() == payloads.len()
    &&& forall|i: int|
        0 <= i < payloads.len() ==> #[trigger] barrier_result(
            arenas[i],
            arenas[i + 1],
            t,
            OperationOutcome::Unwound(payloads[i]),
            sites[i],
            codes[i],
        )
}

/// N failures on one handle, taken in any order one at a time, add exactly N
/// records after those it held: the record of the i-th failure is the i-th
/// new one, and every call yields `Error`.
pub proof fn law_failures_counted(
    arenas: Seq<Seq<Option<HandleView>>>,
    t: int,
    payloads: Seq<Option<String>>,
    sites: Seq<CallSite>,
    codes: Seq<StatusCode>,
)
    requires
        live(arenas[0], t),
        failure_run(arenas, t, payloads, sites, codes),
    ensures
        ({
            let before = handle_at(arenas[0], t).diags;
            let after = handle_at(arenas.last(), t).diags;
            &&& after.len() == before.len() + payloads.len()
            &&& after.subrange(0, before.len() as int) == before
            &&& forall|i: int|
                0 <= i < payloads.len() ==> is_fault_record(
                    #[trigger] after[before.len() + i],
                    description(payload_view(payloads[i])),
                    sites[i],
                )
        }),
        forall|i: int| 0 <= i < codes.len() ==> #[trigger] codes[i] == StatusCode::Error,
{
    lemma_failure_prefix(arenas, t, payloads, sites, codes, payloads.len() as int);
    assert forall|i: int| 0 <= i < codes.len() implies #[trigger] codes[i] == StatusCode::Error by {
        assert(barrier_result(
            arenas[i],
            arenas[i + 1],
            t,
            OperationOutcome::Unwound(payloads[i]),
            sites[i],
            codes[i],
        ));
    }
}

/// What the first `k` steps of a run of failures have added.
proof fn lemma_failure_prefix(
    arenas: Seq<Seq<Option<HandleView>>>,
    t: int,
    payloads: Seq<Option<String>>,
    sites: Seq<CallSite>,
    codes: Seq<StatusCode>,
    k: int,
)
    requires
        live(arenas[0], t),
        failure_run(arenas, t, payloads, sites, codes),
        0 <= k <= payloads.len(),
    ensures
        live(arenas[k], t),
        ({
            let before = handle_at(arenas[0], t).diags;
            let now = handle_at(arenas[k], t).diags;
            &&& now.len() == before.len() + k
            &&& now.subrange(0, before.len() as int) == before
            &&& forall|i: int|
                0 <= i < k ==> is_fault_record(
                    #[trigger] now[before.len() + i],
                    description(payload_view(payloads[i])),
                    sites[i],
                )
        }),
    decreases k,
{
    if k == 0 {
        assert(handle_at(arenas[0], t).diags.subrange(0, handle_at(arenas[0], t).diags.len() as int)
            =~= handle_at(arenas[0], t).diags);
    } else {
        lemma_failure_prefix(arenas, t, payloads, sites, codes, k - 1);
        let j = k - 1;
        assert(barrier_result(
            arenas[j],
            arenas[j + 1],
            t,
            OperationOutcome::Unwound(payloads[j]),
            sites[j],
            codes[j],
        ));
        let before = handle_at(arenas[0], t).diags;
        let prev = handle_at(arenas[j], t).diags;
        let now = handle_at(arenas[k], t).diags;
        let d = now.last();
        assert(now =~= prev.push(d));
        assert(now.subrange(0, before.len() as int) =~= prev.subrange(0, before.len() as int));
        assert forall|i: int|
            0 <= i < k implies is_fault_record(
                #[trigger] now[before.len() + i],
                description(payload_view(payloads[i])),
                sites[i],
            ) by {
            if i < j {
                assert(now[before.len() + i] == prev[before.len() + i]);
            }
        }
    }
}

} // verus!
