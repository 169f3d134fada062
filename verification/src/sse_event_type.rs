//! The named event types of the broker's event stream, with the exact
//! wire names they are read from and written as.

use vstd::prelude::*;
use crate::text::str_eq;

verus! {

#[derive(Debug, PartialEq, Eq)]
pub enum SseEventType {
    NewTask,
    NewResult,
    UpdatedTask,
    UpdatedResult,
    WaitExpired,
    DeletedTask,
    Error,
    Undefined,
    Unknown(String),
}

/// The wire name of an event type. The undefined type has the empty name.
pub open spec fn sse_event_name(t: SseEventType) -> Seq<char> {
    match t {
        SseEventType::NewTask => "new_task"@,
        SseEventType::NewResult => "new_result"@,
        SseEventType::UpdatedTask => "updated_task"@,
        SseEventType::UpdatedResult => "updated_result"@,
        SseEventType::WaitExpired => "wait_expired"@,
        SseEventType::DeletedTask => "deleted_task"@,
        SseEventType::Error => "error"@,
        SseEventType::Undefined => ""@,
        SseEventType::Unknown(e) => e@,
    }
}

impl SseEventType {
    /// The wire name of this event type.
    pub fn as_ref(&self) -> (r: &str)
        ensures
            r@ == sse_event_name(*self),
    {
        match self {
            SseEventType::NewTask => "new_task",
            SseEventType::NewResult => "new_result",
            SseEventType::UpdatedTask => "updated_task",
            SseEventType::UpdatedResult => "updated_result",
            SseEventType::WaitExpired => "wait_expired",
            SseEventType::DeletedTask => "deleted_task",
            SseEventType::Error => "error",
            SseEventType::Undefined => "",
            SseEventType::Unknown(e) => e.as_str(),
        }
    }

    /// The event type read from a wire name: each known name yields its
    /// type, "message" yields the undefined type, and any other name is
    /// kept verbatim as an unknown type. This never fails.
    pub fn from_str(s: &str) -> (r: SseEventType)
        ensures
            s@ == "new_task"@ ==> r is NewTask,
            s@ == "new_result"@ ==> r is NewResult,
            s@ == "updated_task"@ ==> r is UpdatedTask,
            s@ == "updated_result"@ ==> r is UpdatedResult,
            s@ == "wait_expired"@ ==> r is WaitExpired,
            s@ == "deleted_task"@ ==> r is DeletedTask,
            s@ == "error"@ ==> r is Error,
            s@ == "message"@ ==> r is Undefined,
            (s@ != "new_task"@ && s@ != "new_result"@ && s@ != "updated_task"@ && s@
                != "updated_result"@ && s@ != "wait_expired"@ && s@ != "deleted_task"@ && s@
                != "error"@ && s@ != "message"@) ==> (r matches SseEventType::Unknown(e) && e@
                == s@),
    {
        proof {
            reveal_strlit("new_task");
            reveal_strlit("new_result");
            reveal_strlit("updated_task");
            reveal_strlit("updated_result");
            reveal_strlit("wait_expired");
            reveal_strlit("deleted_task");
            reveal_strlit("error");
            reveal_strlit("message");
            assert("new_task"@.len() == 8);
            assert("new_result"@.len() == 10);
            assert("updated_task"@.len() == 12);
            assert("updated_result"@.len() == 14);
            assert("wait_expired"@.len() == 12);
            assert("deleted_task"@.len() == 12);
            assert("error"@.len() == 5);
            assert("message"@.len() == 7);
            assert("updated_task"@[0] == 'u');
            assert("wait_expired"@[0] == 'w');
            assert("deleted_task"@[0] == 'd');
        }
        if str_eq(s, "new_task") {
            SseEventType::NewTask
        } else if str_eq(s, "new_result") {
            SseEventType::NewResult
        } else if str_eq(s, "updated_task") {
            SseEventType::UpdatedTask
        } else if str_eq(s, "updated_result") {
            SseEventType::UpdatedResult
        } else if str_eq(s, "wait_expired") {
            SseEventType::WaitExpired
        } else if str_eq(s, "deleted_task") {
            SseEventType::DeletedTask
        } else if str_eq(s, "error") {
            SseEventType::Error
        } else if str_eq(s, "message") {
            SseEventType::Undefined
        } else {
            SseEventType::Unknown(s.to_owned())
        }
    }
}

} // verus!
