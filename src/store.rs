use vstd::prelude::*;
use crate::diag::{is_sequence_error_record, sequence_error_record, Diagnostic};
use crate::state::{allowed_from, next_state, target_of, InvalidState, StatementOp, StatementState};
use crate::status::StatusCode;

verus! {

/// The four kinds of handle that the C interface hands out.
#[derive(Clone, Copy, Debug, PartialEq, Eq, Structural)]
pub enum HandleKind {
    Environment,
    Connection,
    Statement,
    Descriptor,
}

/// What each kind of handle holds besides its parent and diagnostics.
#[derive(Clone, Copy, Debug, PartialEq, Eq, Structural)]
pub enum HandleBody {
    Environment,
    Connection,
    Statement(StatementState),
    Descriptor,
}

/// The kind of handle that holds `b`.
pub open spec fn kind_of(b: HandleBody) -> HandleKind {
    match b {
        HandleBody::Environment => HandleKind::Environment,
        HandleBody::Connection => HandleKind::Connection,
        HandleBody::Statement(_) => HandleKind::Statement,
        HandleBody::Descriptor => HandleKind::Descriptor,
    }
}

/// What a handle of `kind` holds when it is allocated.
pub open spec fn initial_body(kind: HandleKind) -> HandleBody {
    match kind {
        HandleKind::Environment => HandleBody::Environment,
        HandleKind::Connection => HandleBody::Connection,
        HandleKind::Statement => HandleBody::Statement(StatementState::Allocated),
        HandleKind::Descriptor => HandleBody::Descriptor,
    }
}

/// Why a statement operation was refused before it ran.
#[derive(Clone, Copy, Debug, PartialEq, Eq, Structural)]
pub enum StatementError {
    /// The token names no live statement.
    InvalidHandle,
    /// The statement's state does not allow the operation.
    InvalidState(InvalidState),
}

/// One live handle.
pub struct Handle {
    pub body: HandleBody,
    /// The token of the parent handle, or 0 for none; a relation, not ownership.
    pub parent: usize,
    /// The records in the order they were made.
    pub diagnostics: Vec<Diagnostic>,
}

/// A handle as a mathematical value.
pub struct HandleView {
    pub body: HandleBody,
    pub parent: usize,
    pub diags: Seq<Diagnostic>,
}

impl View for Handle {
    type V = HandleView;

    open spec fn view(&self) -> HandleView {
        HandleView { body: self.body, parent: self.parent, diags: self.diagnostics@ }
    }
}

/// All handles ever allocated, addressed by token: token `t` names slot `t - 1`,
/// token 0 is the null handle, and a freed slot stays empty for good.
pub struct HandleArena {
    slots: Vec<Option<Handle>>,
}

/// The view of one slot.
pub open spec fn slot_view(o: Option<Handle>) -> Option<HandleView> {
    match o {
        Some(h) => Some(h@),
        None => None,
    }
}

impl View for HandleArena {
    type V = Seq<Option<HandleView>>;

    closed spec fn view(&self) -> Seq<Option<HandleView>> {
        self.slots@.map_values(|o: Option<Handle>| slot_view(o))
    }
}

/// Token `t` names a handle that was allocated and not freed.
pub open spec fn live(v: Seq<Option<HandleView>>, t: int) -> bool {
    1 <= t <= v.len() && v[t - 1] is Some
}

/// The handle that the live token `t` names.
pub open spec fn handle_at(v: Seq<Option<HandleView>>, t: int) -> HandleView {
    v[t - 1]->Some_0
}

/// Token `t` names a live handle of `kind`.
pub open spec fn live_of_kind(v: Seq<Option<HandleView>>, t: int, kind: HandleKind) -> bool {
    live(v, t) && kind_of(handle_at(v, t).body) == kind
}

/// Some live handle names `t` as its parent.
pub open spec fn has_child(v: Seq<Option<HandleView>>, t: int) -> bool {
    exists|c: int| live(v, c) && #[trigger] handle_at(v, c).parent == t
}

/// Every live handle's parent is null or live.
pub open spec fn arena_wf(v: Seq<Option<HandleView>>) -> bool {
    forall|c: int|
        live(v, c) ==> (#[trigger] handle_at(v, c).parent == 0 || live(v, handle_at(v, c).parent as int))
}

/// The arena after the record `d` is added to the live handle `t`.
pub open spec fn with_diag(v: Seq<Option<HandleView>>, t: int, d: Diagnostic) -> Seq<Option<HandleView>> {
    v.update(t - 1, Some(HandleView { diags: handle_at(v, t).diags.push(d), ..handle_at(v, t) }))
}

/// The answer to a request for record `n` (counted from 1) of the handle `t`.
pub open spec fn diag_lookup(v: Seq<Option<HandleView>>, t: int, n: int) -> Result<Diagnostic, StatusCode> {
    if !live(v, t) {
        Err(StatusCode::InvalidHandle)
    } else if n < 1 {
        Err(StatusCode::Error)
    } else if n > handle_at(v, t).diags.len() {
        Err(StatusCode::NoData)
    } else {
        Ok(handle_at(v, t).diags[n - 1])
    }
}

/// Two arenas with the same live tokens and the same parents are well formed together.
proof fn lemma_same_shape_wf(a: Seq<Option<HandleView>>, b: Seq<Option<HandleView>>)
    requires
        a.len() == b.len(),
        forall|i: int| 0 <= i < a.len() ==> (#[trigger] a[i] is Some <==> b[i] is Some),
        forall|i: int|
            0 <= i < a.len() && a[i] is Some ==> (#[trigger] a[i])->Some_0.parent == b[i]->Some_0.parent,
    ensures
        arena_wf(a) ==> arena_wf(b),
{
    if arena_wf(a) {
        assert forall|c: int| live(b, c) implies (#[trigger] handle_at(b, c).parent == 0 || live(
            b,
            handle_at(b, c).parent as int,
        )) by {
            assert(a[c - 1] is Some);
            assert(handle_at(a, c).parent == handle_at(b, c).parent);
            let p = handle_at(a, c).parent as int;
            if p != 0 {
                assert(live(a, p));
                assert(a[p - 1] is Some);
            }
        }
    }
}

impl HandleArena {
    /// An arena with no handles.
    pub fn new() -> (r: HandleArena)
        ensures
            r@ == Seq::<Option<HandleView>>::empty(),
            arena_wf(r@),
    {
        let r = HandleArena { slots: Vec::new() };
        assert(r@ =~= Seq::<Option<HandleView>>::empty());
        r
    }

    /// Whether the token names a live handle of `kind`.
    pub fn is_live(&self, token: usize, kind: HandleKind) -> (r: bool)
        ensures
            r == live_of_kind(self@, token as int, kind),
    {
        if token == 0 || token > self.slots.len() {
            return false;
        }
        match &self.slots[token - 1] {
            Some(h) => match h.body {
                HandleBody::Environment => kind == HandleKind::Environment,
                HandleBody::Connection => kind == HandleKind::Connection,
                HandleBody::Statement(_) => kind == HandleKind::Statement,
                HandleBody::Descriptor => kind == HandleKind::Descriptor,
            },
            None => false,
        }
    }

    /// Looks up the handle of `kind` that the token names; fails on the null token,
    /// on a freed one, on one never handed out and on one of another kind.
    pub fn resolve(&self, token: usize, kind: HandleKind) -> (r: Result<&Handle, StatusCode>)
        ensures
            live_of_kind(self@, token as int, kind) <==> r is Ok,
            r matches Ok(h) ==> h@ == handle_at(self@, token as int),
            !live_of_kind(self@, token as int, kind) ==> r == Err::<&Handle, StatusCode>(
                StatusCode::InvalidHandle,
            ),
    {
        if !self.is_live(token, kind) {
            return Err(StatusCode::InvalidHandle);
        }
        match &self.slots[token - 1] {
            Some(h) => Ok(h),
            None => Err(StatusCode::InvalidHandle),
        }
    }
    /// Adds a handle of `kind` under the parent token `parent` (0 for none) and
    /// hands out its token. Fails with `InvalidHandle` when `parent` is neither 0
    /// nor live, and with `Error` when no token is left.
    pub fn allocate(&mut self, kind: HandleKind, parent: usize) -> (r: Result<usize, StatusCode>)
        requires
            arena_wf(old(self)@),
        ensures
            arena_wf(final(self)@),
            parent != 0 && !live(old(self)@, parent as int) ==> r == Err::<usize, StatusCode>(
                StatusCode::InvalidHandle,
            ),
            (parent == 0 || live(old(self)@, parent as int)) && old(self)@.len() < usize::MAX ==> r
                == Ok::<usize, StatusCode>((old(self)@.len() + 1) as usize),
            (parent == 0 || live(old(self)@, parent as int)) && old(self)@.len() == usize::MAX ==> r
                == Err::<usize, StatusCode>(StatusCode::Error),
            r is Ok ==> final(self)@ == old(self)@.push(
                Some(HandleView { body: initial_body(kind), parent, diags: Seq::empty() }),
            ),
            r is Err ==> final(self)@ == old(self)@,
    {
        if parent != 0 {
            if parent > self.slots.len() {
                return Err(StatusCode::InvalidHandle);
            }
            if self.slots[parent - 1].is_none() {
                return Err(StatusCode::InvalidHandle);
            }
        }
        if self.slots.len() == usize::MAX {
            return Err(StatusCode::Error);
        }
        let body = match kind {
            HandleKind::Environment => HandleBody::Environment,
            HandleKind::Connection => HandleBody::Connection,
            HandleKind::Statement => HandleBody::Statement(StatementState::Allocated),
            HandleKind::Descriptor => HandleBody::Descriptor,
        };
        let h = Handle { body, parent, diagnostics: Vec::new() };
        let ghost before = self@;
        self.slots.push(Some(h));
        let token = self.slots.len();
        proof {
            let hv = HandleView { body: initial_body(kind), parent, diags: Seq::empty() };
            assert(self@ =~= before.push(Some(hv)));
            assert forall|c: int| live(self@, c) implies (#[trigger] handle_at(self@, c).parent == 0
                || live(self@, handle_at(self@, c).parent as int)) by {
                if c < token {
                    assert(handle_at(self@, c) == handle_at(before, c));
                }
            }
        }
        Ok(token)
    }

    /// Frees the handle of `kind` that the token names. Fails with `InvalidHandle`
    /// when there is none, and with `Error` while a live handle names it as parent.
    pub fn free(&mut self, token: usize, kind: HandleKind) -> (r: Result<(), StatusCode>)
        requires
            arena_wf(old(self)@),
        ensures
            arena_wf(final(self)@),
            !live_of_kind(old(self)@, token as int, kind) ==> r == Err::<(), StatusCode>(
                StatusCode::InvalidHandle,
            ),
            live_of_kind(old(self)@, token as int, kind) && has_child(old(self)@, token as int)
                ==> r == Err::<(), StatusCode>(StatusCode::Error),
            live_of_kind(old(self)@, token as int, kind) && !has_child(old(self)@, token as int)
                ==> r is Ok,
            r is Ok ==> final(self)@ == old(self)@.update(token - 1, None),
            r is Err ==> final(self)@ == old(self)@,
    {
        if !self.is_live(token, kind) {
            return Err(StatusCode::InvalidHandle);
        }
        let mut i: usize = 0;
        while i < self.slots.len()
            invariant
                0 <= i <= self@.len(),
                self@ == old(self)@,
                arena_wf(self@),
                live_of_kind(self@, token as int, kind),
                forall|c: int| 1 <= c <= i && live(self@, c) ==> #[trigger] handle_at(self@, c).parent != token,
            decreases self@.len() - i,
        {
            match &self.slots[i] {
                Some(h) => {
                    if h.parent == token {
                        assert(live(self@, i + 1) && handle_at(self@, i + 1).parent == token);
                        return Err(StatusCode::Error);
                    }
                },
                None => {},
            }
            i = i + 1;
        }
        let ghost before = self@;
        self.slots.set(token - 1, None);
        proof {
            assert(self@ =~= before.update(token - 1, None));
            assert forall|c: int| live(self@, c) implies (#[trigger] handle_at(self@, c).parent == 0
                || live(self@, handle_at(self@, c).parent as int)) by {
                assert(handle_at(self@, c) == handle_at(before, c));
                assert(live(before, c));
            }
        }
        Ok(())
    }

    /// Adds `d` after the records of the live handle `token`; nothing else changes.
    pub fn append_diagnostic(&mut self, token: usize, d: Diagnostic)
        requires
            live(old(self)@, token as int),
        ensures
            final(self)@ == with_diag(old(self)@, token as int, d),
            arena_wf(old(self)@) ==> arena_wf(final(self)@),
    {
        let ghost before = self@;
        match &mut self.slots[token - 1] {
            Some(h) => {
                h.diagnostics.push(d);
            },
            None => {},
        }
        assert(self@ =~= with_diag(before, token as int, d));
        proof {
            lemma_same_shape_wf(before, self@);
        }
    }

    /// How many records the live handle `token` holds.
    pub fn diagnostic_count(&self, token: usize) -> (r: usize)
        requires
            live(self@, token as int),
        ensures
            r == handle_at(self@, token as int).diags.len(),
    {
        match &self.slots[token - 1] {
            Some(h) => h.diagnostics.len(),
            None => 0,
        }
    }

    /// The records of the handle `token`, in the order they were made;
    /// `InvalidHandle` when the token names no live handle.
    pub fn diagnostics(&self, token: usize) -> (r: Result<&Vec<Diagnostic>, StatusCode>)
        ensures
            live(self@, token as int) <==> r is Ok,
            r matches Ok(ds) ==> ds@ == handle_at(self@, token as int).diags,
            !live(self@, token as int) ==> r == Err::<&Vec<Diagnostic>, StatusCode>(
                StatusCode::InvalidHandle,
            ),
    {
        if token == 0 || token > self.slots.len() {
            return Err(StatusCode::InvalidHandle);
        }
        match &self.slots[token - 1] {
            Some(h) => Ok(&h.diagnostics),
            None => Err(StatusCode::InvalidHandle),
        }
    }

    /// Record `rec_number` (counted from 1) of the handle `token`. Fails with
    /// `InvalidHandle` when the token names no live handle, with `Error` for
    /// record 0 and with `NoData` past the last record.
    pub fn get_diag_rec(&self, token: usize, rec_number: usize) -> (r: Result<&Diagnostic, StatusCode>)
        ensures
            match diag_lookup(self@, token as int, rec_number as int) {
                Ok(d) => r matches Ok(x) && *x == d,
                Err(e) => r == Err::<&Diagnostic, StatusCode>(e),
            },
    {
        if token == 0 || token > self.slots.len() {
            return Err(StatusCode::InvalidHandle);
        }
        match &self.slots[token - 1] {
            Some(h) => {
                if rec_number == 0 {
                    Err(StatusCode::Error)
                } else if rec_number > h.diagnostics.len() {
                    Err(StatusCode::NoData)
                } else {
                    Ok(&h.diagnostics[rec_number - 1])
                }
            },
            None => Err(StatusCode::InvalidHandle),
        }
    }

    /// Removes every record of the handle `token`. Fails with `InvalidHandle`,
    /// changing nothing, when the token names no live handle.
    pub fn clear_diagnostics(&mut self, token: usize) -> (r: Result<(), StatusCode>)
        ensures
            live(old(self)@, token as int) <==> r is Ok,
            !live(old(self)@, token as int) ==> r == Err::<(), StatusCode>(StatusCode::InvalidHandle)
                && final(self)@ == old(self)@,
            r is Ok ==> final(self)@ == old(self)@.update(
                token - 1,
                Some(HandleView { diags: Seq::empty(), ..handle_at(old(self)@, token as int) }),
            ),
            arena_wf(old(self)@) ==> arena_wf(final(self)@),
    {
        if token == 0 || token > self.slots.len() {
            return Err(StatusCode::InvalidHandle);
        }
        let ghost before = self@;
        let r = match &mut self.slots[token - 1] {
            Some(h) => {
                h.diagnostics.clear();
                Ok(())
            },
            None => Err(StatusCode::InvalidHandle),
        };
        proof {
            if r is Ok {
                assert(self@ =~= before.update(
                    token - 1,
                    Some(HandleView { diags: Seq::empty(), ..handle_at(before, token as int) }),
                ));
            } else {
                assert(self@ =~= before);
            }
            lemma_same_shape_wf(before, self@);
        }
        r
    }

    /// The state of the statement handle `token`; `InvalidHandle` when the token
    /// names no live statement.
    pub fn statement_state(&self, token: usize) -> (r: Result<StatementState, StatusCode>)
        ensures
            live_of_kind(self@, token as int, HandleKind::Statement) ==> r == Ok::<
                StatementState,
                StatusCode,
            >(handle_at(self@, token as int).body->Statement_0),
            !live_of_kind(self@, token as int, HandleKind::Statement) ==> r == Err::<
                StatementState,
                StatusCode,
            >(StatusCode::InvalidHandle),
    {
        match self.resolve(token, HandleKind::Statement) {
            Ok(h) => match h.body {
                HandleBody::Statement(st) => Ok(st),
                _ => Err(StatusCode::InvalidHandle),
            },
            Err(e) => Err(e),
        }
    }
    /// Checks that the statement `token` may run `op` and moves it to the state
    /// that `op` leads to. Where its state refuses `op`, the state stays, one
    /// sequence error record is added, and `InvalidState` comes back; where the
    /// token names no live statement, nothing changes.
    pub fn apply_statement_op(&mut self, token: usize, op: StatementOp) -> (r: Result<
        StatementState,
        StatementError,
    >)
        ensures
            arena_wf(old(self)@) ==> arena_wf(final(self)@),
            !live_of_kind(old(self)@, token as int, HandleKind::Statement) ==> r == Err::<
                StatementState,
                StatementError,
            >(StatementError::InvalidHandle) && final(self)@ == old(self)@,
            live_of_kind(old(self)@, token as int, HandleKind::Statement) ==> ({
                let h = handle_at(old(self)@, token as int);
                let cur = h.body->Statement_0;
                if allowed_from(op, cur) {
                    &&& r == Ok::<StatementState, StatementError>(target_of(op))
                    &&& final(self)@ == old(self)@.update(
                        token - 1,
                        Some(HandleView { body: HandleBody::Statement(target_of(op)), ..h }),
                    )
                } else {
                    &&& r == Err::<StatementState, StatementError>(
                        StatementError::InvalidState(InvalidState { current: cur, op }),
                    )
                    &&& final(self)@.len() == old(self)@.len()
                    &&& is_sequence_error_record(handle_at(final(self)@, token as int).diags.last())
                    &&& final(self)@ == with_diag(
                        old(self)@,
                        token as int,
                        handle_at(final(self)@, token as int).diags.last(),
                    )
                }
            }),
    {
        let cur = match self.statement_state(token) {
            Ok(st) => st,
            Err(_) => {
                return Err(StatementError::InvalidHandle);
            },
        };
        match next_state(cur, op) {
            Ok(to) => {
                let ghost before = self@;
                match &mut self.slots[token - 1] {
                    Some(h) => {
                        h.body = HandleBody::Statement(to);
                    },
                    None => {},
                }
                proof {
                    assert(self@ =~= before.update(
                        token - 1,
                        Some(
                            HandleView {
                                body: HandleBody::Statement(to),
                                ..handle_at(before, token as int)
                            },
                        ),
                    ));
                    lemma_same_shape_wf(before, self@);
                }
                Ok(to)
            },
            Err(e) => {
                let d = sequence_error_record();
                self.append_diagnostic(token, d);
                Err(StatementError::InvalidState(e))
            },
        }
    }
}

} // verus!
