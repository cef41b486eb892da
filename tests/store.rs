use odbc_barrier::diag::DiagClass;
use odbc_barrier::state::{next_state, transition, InvalidState, StatementOp, StatementState};
use odbc_barrier::status::StatusCode;
use odbc_barrier::store::{HandleArena, HandleKind, StatementError};

#[test]
fn closed_statement_refuses_fetch_without_fault() {
    let mut arena = HandleArena::new();
    let stmt = arena.allocate(HandleKind::Statement, 0).unwrap();
    assert_eq!(arena.apply_statement_op(stmt, StatementOp::Close), Ok(StatementState::Closed));
    let r = arena.apply_statement_op(stmt, StatementOp::Fetch);
    assert_eq!(
        r,
        Err(StatementError::InvalidState(InvalidState {
            current: StatementState::Closed,
            op: StatementOp::Fetch
        }))
    );
    assert_eq!(arena.statement_state(stmt), Ok(StatementState::Closed));
    assert_eq!(arena.diagnostic_count(stmt), 1);
    let d = arena.get_diag_rec(stmt, 1).unwrap();
    assert_eq!(d.class, DiagClass::InvalidState);
    assert_eq!(d.sql_state, "HY010");
    assert_eq!(d.message, "function sequence error");
    assert!(d.site.is_none());
}

#[test]
fn statement_walks_its_lifecycle() {
    let mut arena = HandleArena::new();
    let stmt = arena.allocate(HandleKind::Statement, 0).unwrap();
    assert_eq!(arena.statement_state(stmt), Ok(StatementState::Allocated));
    assert_eq!(arena.apply_statement_op(stmt, StatementOp::Prepare), Ok(StatementState::Prepared));
    assert_eq!(arena.apply_statement_op(stmt, StatementOp::Execute), Ok(StatementState::Executed));
    assert_eq!(arena.apply_statement_op(stmt, StatementOp::Fetch), Ok(StatementState::Fetching));
    assert_eq!(arena.apply_statement_op(stmt, StatementOp::Fetch), Ok(StatementState::Fetching));
    assert_eq!(arena.apply_statement_op(stmt, StatementOp::Close), Ok(StatementState::Closed));
    assert_eq!(arena.diagnostic_count(stmt), 0);
}

#[test]
fn next_state_table() {
    assert_eq!(next_state(StatementState::Allocated, StatementOp::Close), Ok(StatementState::Closed));
    assert_eq!(
        next_state(StatementState::Allocated, StatementOp::Fetch),
        Err(InvalidState { current: StatementState::Allocated, op: StatementOp::Fetch })
    );
    assert_eq!(
        next_state(StatementState::Prepared, StatementOp::Prepare),
        Err(InvalidState { current: StatementState::Prepared, op: StatementOp::Prepare })
    );
    assert!(next_state(StatementState::Closed, StatementOp::Close).is_err());
}

#[test]
fn transition_checks_the_from_set() {
    let mut s = StatementState::Executed;
    let from = [StatementState::Executed, StatementState::Fetching];
    assert_eq!(transition(&mut s, &from, StatementState::Fetching), Ok(()));
    assert_eq!(s, StatementState::Fetching);
    let mut c = StatementState::Closed;
    assert_eq!(transition(&mut c, &from, StatementState::Fetching), Err(StatementState::Closed));
    assert_eq!(c, StatementState::Closed);
}

#[test]
fn null_and_freed_tokens_are_invalid() {
    let mut arena = HandleArena::new();
    assert!(arena.resolve(0, HandleKind::Statement).is_err());
    assert_eq!(arena.statement_state(0), Err(StatusCode::InvalidHandle));
    let stmt = arena.allocate(HandleKind::Statement, 0).unwrap();
    assert!(arena.resolve(stmt, HandleKind::Statement).is_ok());
    assert!(arena.resolve(stmt, HandleKind::Connection).is_err());
    assert_eq!(arena.free(stmt, HandleKind::Statement), Ok(()));
    assert!(matches!(arena.resolve(stmt, HandleKind::Statement), Err(StatusCode::InvalidHandle)));
    assert_eq!(arena.free(stmt, HandleKind::Statement), Err(StatusCode::InvalidHandle));
    assert!(matches!(arena.get_diag_rec(stmt, 1), Err(StatusCode::InvalidHandle)));
    assert_eq!(arena.clear_diagnostics(stmt), Err(StatusCode::InvalidHandle));
    assert!(!arena.is_live(stmt + 1, HandleKind::Statement));
}

#[test]
fn parent_outlives_children() {
    let mut arena = HandleArena::new();
    let env = arena.allocate(HandleKind::Environment, 0).unwrap();
    let dbc = arena.allocate(HandleKind::Connection, env).unwrap();
    let stmt = arena.allocate(HandleKind::Statement, dbc).unwrap();
    assert_eq!((env, dbc, stmt), (1, 2, 3));
    assert_eq!(arena.allocate(HandleKind::Statement, 9), Err(StatusCode::InvalidHandle));
    assert_eq!(arena.free(dbc, HandleKind::Connection), Err(StatusCode::Error));
    assert_eq!(arena.free(stmt, HandleKind::Statement), Ok(()));
    assert_eq!(arena.free(dbc, HandleKind::Connection), Ok(()));
    assert_eq!(arena.allocate(HandleKind::Statement, dbc), Err(StatusCode::InvalidHandle));
    assert_eq!(arena.free(env, HandleKind::Environment), Ok(()));
}

#[test]
fn record_numbers_outside_the_list() {
    let mut arena = HandleArena::new();
    let stmt = arena.allocate(HandleKind::Statement, 0).unwrap();
    assert!(matches!(arena.get_diag_rec(stmt, 1), Err(StatusCode::NoData)));
    arena.apply_statement_op(stmt, StatementOp::Execute).unwrap_err();
    assert!(matches!(arena.get_diag_rec(stmt, 0), Err(StatusCode::Error)));
    assert!(arena.get_diag_rec(stmt, 1).is_ok());
    assert!(matches!(arena.get_diag_rec(stmt, 2), Err(StatusCode::NoData)));
    assert_eq!(arena.clear_diagnostics(stmt), Ok(()));
    assert_eq!(arena.diagnostic_count(stmt), 0);
}

#[test]
fn raw_codes_round_trip() {
    let pairs = [
        (StatusCode::Success, 0),
        (StatusCode::SuccessWithInfo, 1),
        (StatusCode::Error, -1),
        (StatusCode::InvalidHandle, -2),
        (StatusCode::NoData, 100),
        (StatusCode::StillExecuting, 2),
        (StatusCode::NeedData, 99),
        (StatusCode::ParamDataAvailable, 101),
    ];
    for (c, v) in pairs {
        assert_eq!(c.raw(), v);
        assert_eq!(StatusCode::from_raw(v), Some(c));
    }
    assert_eq!(StatusCode::from_raw(3), None);
}

#[test]
fn snapshot_lists_records_in_order() {
    let mut arena = HandleArena::new();
    let stmt = arena.allocate(HandleKind::Statement, 0).unwrap();
    assert!(arena.diagnostics(stmt).unwrap().is_empty());
    arena.apply_statement_op(stmt, StatementOp::Fetch).unwrap_err();
    arena.apply_statement_op(stmt, StatementOp::Execute).unwrap_err();
    let ds = arena.diagnostics(stmt).unwrap();
    assert_eq!(ds.len(), 2);
    assert!(ds.iter().all(|d| d.class == DiagClass::InvalidState));
    assert!(matches!(arena.diagnostics(0), Err(StatusCode::InvalidHandle)));
}
