//! The failures that operations report, and the kind each belongs to.

use vstd::prelude::*;
use vstd::string::StringExecFns;

verus! {

/// The kinds of failure.
#[derive(Clone, Copy, Debug, PartialEq, Eq, Hash, Structural)]
pub enum FaultKind {
    /// A required field is empty.
    InvalidPayload,
    /// A referenced identifier is absent, or a listing found nothing.
    NotFound,
    /// The state of a request does not allow the transition.
    Conflict,
    /// The durable store could not take a write: a defect, not an outcome of normal use.
    Storage,
}

/// Why an operation failed.
#[derive(Clone, Copy, Debug, PartialEq, Eq, Hash, Structural)]
pub enum Fault {
    EmployeeNameRequired,
    ReasonRequired,
    NoEmployees,
    NoMatchingEmployees,
    NoLeaveTypes,
    NoLeaveRequests,
    EmployeeNotFound,
    LeaveTypeNotFound,
    LeaveRequestNotFound,
    AlreadyApproved,
    AlreadyRejected,
    NotApproved,
    CannotCancelApproved,
    RecordTooLarge,
    IdentifiersExhausted,
    CounterNotPersisted,
}

impl Fault {
    pub open spec fn kind_spec(self) -> FaultKind {
        match self {
            Fault::EmployeeNameRequired | Fault::ReasonRequired => FaultKind::InvalidPayload,
            Fault::NoEmployees
            | Fault::NoMatchingEmployees
            | Fault::NoLeaveTypes
            | Fault::NoLeaveRequests
            | Fault::EmployeeNotFound
            | Fault::LeaveTypeNotFound
            | Fault::LeaveRequestNotFound => FaultKind::NotFound,
            Fault::AlreadyApproved
            | Fault::AlreadyRejected
            | Fault::NotApproved
            | Fault::CannotCancelApproved => FaultKind::Conflict,
            Fault::RecordTooLarge | Fault::IdentifiersExhausted | Fault::CounterNotPersisted =>
                FaultKind::Storage,
        }
    }

    /// The kind of this failure.
    pub fn kind(&self) -> (k: FaultKind)
        ensures
            k == self.kind_spec(),
    {
        match self {
            Fault::EmployeeNameRequired | Fault::ReasonRequired => FaultKind::InvalidPayload,
            Fault::NoEmployees
            | Fault::NoMatchingEmployees
            | Fault::NoLeaveTypes
            | Fault::NoLeaveRequests
            | Fault::EmployeeNotFound
            | Fault::LeaveTypeNotFound
            | Fault::LeaveRequestNotFound => FaultKind::NotFound,
            Fault::AlreadyApproved
            | Fault::AlreadyRejected
            | Fault::NotApproved
            | Fault::CannotCancelApproved => FaultKind::Conflict,
            Fault::RecordTooLarge | Fault::IdentifiersExhausted | Fault::CounterNotPersisted =>
                FaultKind::Storage,
        }
    }

    pub open spec fn message_spec(self) -> Seq<char> {
        match self {
            Fault::EmployeeNameRequired => "Employee name is required."@,
            Fault::ReasonRequired => "Ensure 'reason' is provided."@,
            Fault::NoEmployees => "No employees found"@,
            Fault::NoMatchingEmployees => "No matching employees found"@,
            Fault::NoLeaveTypes => "No leave types found"@,
            Fault::NoLeaveRequests => "No leave requests found"@,
            Fault::EmployeeNotFound => "Employee not found"@,
            Fault::LeaveTypeNotFound => "Leave type not found"@,
            Fault::LeaveRequestNotFound => "Leave request not found"@,
            Fault::AlreadyApproved => "Leave request is already approved."@,
            Fault::AlreadyRejected => "Leave request is already rejected."@,
            Fault::NotApproved => "Only an approved leave request can be accrued."@,
            Fault::CannotCancelApproved => "Cannot cancel an approved leave request."@,
            Fault::RecordTooLarge => "Record exceeds the storage bound."@,
            Fault::IdentifiersExhausted => "No identifier is left."@,
            Fault::CounterNotPersisted => "Failed to set new ID."@,
        }
    }

    /// The sentence shown to a caller for this failure.
    pub fn message(&self) -> (s: String)
        ensures
            s@ == self.message_spec(),
    {
        match self {
            Fault::EmployeeNameRequired => String::from_str("Employee name is required."),
            Fault::ReasonRequired => String::from_str("Ensure 'reason' is provided."),
            Fault::NoEmployees => String::from_str("No employees found"),
            Fault::NoMatchingEmployees => String::from_str("No matching employees found"),
            Fault::NoLeaveTypes => String::from_str("No leave types found"),
            Fault::NoLeaveRequests => String::from_str("No leave requests found"),
            Fault::EmployeeNotFound => String::from_str("Employee not found"),
            Fault::LeaveTypeNotFound => String::from_str("Leave type not found"),
            Fault::LeaveRequestNotFound => String::from_str("Leave request not found"),
            Fault::AlreadyApproved => String::from_str("Leave request is already approved."),
            Fault::AlreadyRejected => String::from_str("Leave request is already rejected."),
            Fault::NotApproved => String::from_str(
                "Only an approved leave request can be accrued.",
            ),
            Fault::CannotCancelApproved => String::from_str(
                "Cannot cancel an approved leave request.",
            ),
            Fault::RecordTooLarge => String::from_str("Record exceeds the storage bound."),
            Fault::IdentifiersExhausted => String::from_str("No identifier is left."),
            Fault::CounterNotPersisted => String::from_str("Failed to set new ID."),
        }
    }
}

} // verus!
