use odbc_barrier::barrier::{finish_protected_call, OperationOutcome, FAULT_STATUS};
use odbc_barrier::diag::{CallSite, DiagClass, FAULT_MARKER};
use odbc_barrier::status::StatusCode;
use odbc_barrier::store::{HandleArena, HandleKind};
use regex::RegexBuilder;

fn site(function: &str) -> CallSite {
    CallSite {
        function: function.to_string(),
        file: "odbc/src/api/functions.rs".to_string(),
        line: 42,
    }
}

fn fresh_statement() -> (HandleArena, usize) {
    let mut arena = HandleArena::new();
    let token = arena.allocate(HandleKind::Statement, 0).unwrap();
    (arena, token)
}

#[test]
fn test_non_panic() {
    let (mut arena, stmt) = fresh_statement();
    let sql_return = finish_protected_call(
        &mut arena,
        stmt,
        OperationOutcome::Completed(StatusCode::Success),
        site("non_panic_fn"),
    );
    assert_eq!(StatusCode::Success, sql_return);
    assert_eq!(arena.diagnostic_count(stmt), 0);
}

#[test]
fn test_panic() {
    let panic_error_msg = RegexBuilder::new("panic")
        .case_insensitive(true)
        .build()
        .unwrap();
    let (mut arena, stmt) = fresh_statement();
    let sql_return = finish_protected_call(
        &mut arena,
        stmt,
        OperationOutcome::Unwound(Some("panic test".to_string())),
        site("panic_fn"),
    );
    assert_eq!(StatusCode::Error, sql_return);
    let actual_error = format!("{:?}", arena.get_diag_rec(stmt, 1).unwrap());
    assert!(
        panic_error_msg.is_match(actual_error.as_str()),
        "Expected an error due to panic, but got {}",
        &actual_error
    );
}

#[test]
fn fault_record_has_exact_message_and_site() {
    let (mut arena, stmt) = fresh_statement();
    finish_protected_call(
        &mut arena,
        stmt,
        OperationOutcome::Unwound(Some("panic test".to_string())),
        site("SQLFetch"),
    );
    let d = arena.get_diag_rec(stmt, 1).unwrap();
    assert_eq!(d.class, DiagClass::InternalFault);
    assert_eq!(d.sql_state, "HY000");
    assert_eq!(
        d.message,
        "internal fault: the driver panicked with: panic test (in SQLFetch at odbc/src/api/functions.rs:42)"
    );
    assert_ne!(d.message, "panic test");
    let s = d.site.as_ref().unwrap();
    assert_eq!(s.function, "SQLFetch");
    assert_eq!(s.line, 42);
}

#[test]
fn fault_without_text_uses_fixed_description() {
    let (mut arena, stmt) = fresh_statement();
    let mut at = site("SQLExecute");
    at.line = 0;
    let r = finish_protected_call(&mut arena, stmt, OperationOutcome::Unwound(None), at);
    assert_eq!(r, FAULT_STATUS);
    let d = arena.get_diag_rec(stmt, 1).unwrap();
    assert_eq!(
        d.message,
        "internal fault: the driver panicked with: unknown panic payload (in SQLExecute at odbc/src/api/functions.rs:0)"
    );
}

#[test]
fn fault_message_line_numbers_are_decimal() {
    let (mut arena, stmt) = fresh_statement();
    let mut at = site("f");
    at.line = 4294967295;
    finish_protected_call(&mut arena, stmt, OperationOutcome::Unwound(Some("x".to_string())), at);
    let d = arena.get_diag_rec(stmt, 1).unwrap();
    assert!(d.message.ends_with(":4294967295)"));
    assert!(d.message.starts_with(FAULT_MARKER));
}

#[test]
fn completed_codes_pass_through_unchanged() {
    let codes = [
        StatusCode::Success,
        StatusCode::SuccessWithInfo,
        StatusCode::Error,
        StatusCode::InvalidHandle,
        StatusCode::NoData,
        StatusCode::StillExecuting,
        StatusCode::NeedData,
        StatusCode::ParamDataAvailable,
    ];
    let (mut arena, stmt) = fresh_statement();
    for c in codes {
        let r = finish_protected_call(&mut arena, stmt, OperationOutcome::Completed(c), site("f"));
        assert_eq!(r, c);
    }
    assert_eq!(arena.diagnostic_count(stmt), 0);
}

#[test]
fn each_failure_adds_exactly_one_record_in_order() {
    let (mut arena, stmt) = fresh_statement();
    let n = 8;
    for i in 0..n {
        let r = finish_protected_call(
            &mut arena,
            stmt,
            OperationOutcome::Unwound(Some(format!("failure {}", i))),
            site("f"),
        );
        assert_eq!(r, StatusCode::Error);
    }
    assert_eq!(arena.diagnostic_count(stmt), n);
    for i in 0..n {
        let d = arena.get_diag_rec(stmt, i + 1).unwrap();
        assert!(d.message.contains(&format!("failure {} (in", i)));
    }
}

#[test]
fn retrieval_is_repeatable() {
    let (mut arena, stmt) = fresh_statement();
    finish_protected_call(&mut arena, stmt, OperationOutcome::Unwound(Some("a".to_string())), site("f"));
    finish_protected_call(&mut arena, stmt, OperationOutcome::Unwound(Some("b".to_string())), site("g"));
    let first: Vec<String> = (1..=2).map(|n| arena.get_diag_rec(stmt, n).unwrap().message.clone()).collect();
    let second: Vec<String> = (1..=2).map(|n| arena.get_diag_rec(stmt, n).unwrap().message.clone()).collect();
    assert_eq!(first, second);
    assert!(first[0].contains("with: a (in f"));
    assert!(first[1].contains("with: b (in g"));
}
