use vstd::prelude::*;
use vstd::string::*;

verus! {

/// What kind of condition a diagnostic record reports.
#[derive(Clone, Copy, Debug, PartialEq, Eq, Structural)]
pub enum DiagClass {
    /// An unwinding failure that the barrier intercepted.
    InternalFault,
    /// An operation asked of a statement in a state that does not allow it.
    InvalidState,
}

/// The entry point that a record is attributed to.
#[derive(Clone, Debug)]
pub struct CallSite {
    pub function: String,
    pub file: String,
    pub line: u32,
}

/// One record of a handle's diagnostics; never changed once made.
#[derive(Clone, Debug)]
pub struct Diagnostic {
    pub class: DiagClass,
    pub sql_state: String,
    pub message: String,
    pub site: Option<CallSite>,
}

/// Starts the message of every record made for an intercepted failure.
pub const FAULT_MARKER: &'static str = "internal fault: the driver panicked with: ";

/// Stands for the failure text when the failure carried none.
pub const UNKNOWN_PAYLOAD: &'static str = "unknown panic payload";

/// SQLSTATE of a general driver error.
pub const GENERAL_ERROR_STATE: &'static str = "HY000";

/// SQLSTATE of a function sequence error.
pub const SEQUENCE_ERROR_STATE: &'static str = "HY010";

/// Message of a record for an operation refused by the statement's state.
pub const SEQUENCE_ERROR_MESSAGE: &'static str = "function sequence error";

/// The character of a decimal digit.
pub open spec fn digit_char(d: nat) -> char {
    if d == 0 {
        '0'
    } else if d == 1 {
        '1'
    } else if d == 2 {
        '2'
    } else if d == 3 {
        '3'
    } else if d == 4 {
        '4'
    } else if d == 5 {
        '5'
    } else if d == 6 {
        '6'
    } else if d == 7 {
        '7'
    } else if d == 8 {
        '8'
    } else {
        '9'
    }
}

/// `n` written in decimal, without leading zeros.
pub open spec fn decimal(n: nat) -> Seq<char>
    decreases n,
{
    if n < 10 {
        seq![digit_char(n)]
    } else {
        decimal(n / 10) + seq![digit_char(n % 10)]
    }
}

/// The description of a failure: its text, or a fixed one where it carried none.
pub open spec fn description(payload: Option<Seq<char>>) -> Seq<char> {
    match payload {
        Some(p) => p,
        None => UNKNOWN_PAYLOAD@,
    }
}

/// The message of the record made for a failure described by `desc` at `site`.
pub open spec fn fault_message(desc: Seq<char>, site: CallSite) -> Seq<char> {
    FAULT_MARKER@ + desc + " (in "@ + site.function@ + " at "@ + site.file@ + ":"@ + decimal(
        site.line as nat,
    ) + ")"@
}

/// `d` is the record made for a failure described by `desc` at `site`.
pub open spec fn is_fault_record(d: Diagnostic, desc: Seq<char>, site: CallSite) -> bool {
    &&& d.class == DiagClass::InternalFault
    &&& d.sql_state@ == GENERAL_ERROR_STATE@
    &&& d.message@ == fault_message(desc, site)
    &&& d.site == Some(site)
}

/// `d` is the record made for an operation refused by the statement's state.
pub open spec fn is_sequence_error_record(d: Diagnostic) -> bool {
    &&& d.class == DiagClass::InvalidState
    &&& d.sql_state@ == SEQUENCE_ERROR_STATE@
    &&& d.message@ == SEQUENCE_ERROR_MESSAGE@
    &&& d.site is None
}

fn digit_str(d: u32) -> (r: &'static str)
    requires
        d < 10,
    ensures
        r@ == seq![digit_char(d as nat)],
{
    proof {
        reveal_strlit("0");
        reveal_strlit("1");
        reveal_strlit("2");
        reveal_strlit("3");
        reveal_strlit("4");
        reveal_strlit("5");
        reveal_strlit("6");
        reveal_strlit("7");
        reveal_strlit("8");
        reveal_strlit("9");
    }
    if d == 0 {
        "0"
    } else if d == 1 {
        "1"
    } else if d == 2 {
        "2"
    } else if d == 3 {
        "3"
    } else if d == 4 {
        "4"
    } else if d == 5 {
        "5"
    } else if d == 6 {
        "6"
    } else if d == 7 {
        "7"
    } else if d == 8 {
        "8"
    } else {
        "9"
    }
}

/// Writes `n` in decimal at the end of `s`.
pub fn append_decimal(s: &mut String, n: u32)
    ensures
        final(s)@ == old(s)@ + decimal(n as nat),
    decreases n,
{
    if n >= 10 {
        append_decimal(s, n / 10);
    }
    s.append(digit_str(n % 10));
    assert(n >= 10 ==> n as nat / 10 == (n / 10) as nat && n as nat % 10 == (n % 10) as nat);
    assert(s@ == old(s)@ + decimal(n as nat));
}

/// The message of the record made for a failure described by `desc` at `site`.
pub fn fault_message_of(desc: &str, site: &CallSite) -> (r: String)
    ensures
        r@ == fault_message(desc@, *site),
{
    let mut m = String::from_str(FAULT_MARKER);
    m.append(desc);
    m.append(" (in ");
    m.append(site.function.as_str());
    m.append(" at ");
    m.append(site.file.as_str());
    m.append(":");
    append_decimal(&mut m, site.line);
    m.append(")");
    m
}

/// The record made for an intercepted failure with the text `payload`, at `site`.
pub fn fault_record(payload: Option<&str>, site: CallSite) -> (d: Diagnostic)
    ensures
        is_fault_record(
            d,
            description(
                match payload {
                    Some(p) => Some(p@),
                    None => None,
                },
            ),
            site,
        ),
{
    let desc = match payload {
        Some(p) => p,
        None => UNKNOWN_PAYLOAD,
    };
    let message = fault_message_of(desc, &site);
    Diagnostic {
        class: DiagClass::InternalFault,
        sql_state: String::from_str(GENERAL_ERROR_STATE),
        message,
        site: Some(site),
    }
}

/// The record made for an operation refused by the statement's state.
pub fn sequence_error_record() -> (d: Diagnostic)
    ensures
        is_sequence_error_record(d),
{
    Diagnostic {
        class: DiagClass::InvalidState,
        sql_state: String::from_str(SEQUENCE_ERROR_STATE),
        message: String::from_str(SEQUENCE_ERROR_MESSAGE),
        site: None,
    }
}

} // verus!
