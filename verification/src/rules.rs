//! The ledger as a mathematical state, and what each operation makes of it.
//!
//! Every operation is described by a guard, which names the failure that stops it,
//! and an effect, which is the state that a passing guard leads to.

use crate::codec::{employee_encoding, leave_request_encoding};
use crate::fault::Fault;
use crate::model::{
    Balances, EmployeeView, LeaveName, LeaveRequestPayloadView, LeaveRequestView,
    LeaveStatusEnum, LeaveType,
};
use crate::stable::MAX_RECORD_SIZE;
use crate::listing::listing;
use crate::text::{generated_email, matches_query};
use vstd::prelude::*;

verus! {

/// The whole ledger: the last identifier issued and the three kinds of record.
#[verifier::ext_equal]
pub struct LedgerState {
    pub last_id: u64,
    pub employees: Map<u64, EmployeeView>,
    pub leave_types: Map<u64, LeaveType>,
    pub leave_requests: Map<u64, LeaveRequestView>,
}

impl LedgerState {
    /// The ledger that holds nothing and has issued no identifier.
    pub open spec fn empty() -> LedgerState {
        LedgerState {
            last_id: 0,
            employees: Map::empty(),
            leave_types: Map::empty(),
            leave_requests: Map::empty(),
        }
    }

    /// Every record is stored under its own identifier, and no identifier in use
    /// is beyond the last one issued.
    pub open spec fn wf(self) -> bool {
        &&& forall|id: u64| #[trigger]
            self.employees.contains_key(id) ==> self.employees[id].id == id && id <= self.last_id
        &&& forall|id: u64| #[trigger]
            self.leave_types.contains_key(id) ==> self.leave_types[id].id == id && id
                <= self.last_id
        &&& forall|id: u64| #[trigger]
            self.leave_requests.contains_key(id) ==> self.leave_requests[id].id == id && id
                <= self.last_id
    }

    /// The days that the employee has left in the category of the request's policy.
    pub open spec fn balance_for(self, request_id: u64) -> u32 {
        let request = self.leave_requests[request_id];
        self.employees[request.employee_id].balances.remaining_spec(
            self.leave_types[request.leave_type_id].name,
        )
    }
}

/// The state after one more identifier has been issued.
pub open spec fn after_issue(s: LedgerState) -> LedgerState {
    LedgerState { last_id: (s.last_id + 1) as u64, ..s }
}

/// The address an employee is registered with: the one supplied, or the generated
/// one where none was supplied.
pub open spec fn resolved_email(name: Seq<char>, email: Seq<char>) -> Seq<char> {
    if email.len() == 0 {
        generated_email(name)
    } else {
        email
    }
}

pub open spec fn new_employee(id: u64, name: Seq<char>, email: Seq<char>, now: u64) -> EmployeeView {
    EmployeeView {
        id,
        name,
        email: resolved_email(name, email),
        balances: Balances::initial_spec(),
        created_at: now,
    }
}

pub open spec fn create_employee_guard(s: LedgerState, name: Seq<char>, email: Seq<char>) -> Option<
    Fault,
> {
    if name.len() == 0 {
        Some(Fault::EmployeeNameRequired)
    } else if employee_encoding(new_employee(0, name, email, 0)).len() > MAX_RECORD_SIZE {
        Some(Fault::RecordTooLarge)
    } else if s.last_id == u64::MAX {
        Some(Fault::IdentifiersExhausted)
    } else {
        None
    }
}

pub open spec fn create_employee_effect(
    s: LedgerState,
    name: Seq<char>,
    email: Seq<char>,
    now: u64,
) -> LedgerState {
    let id = (s.last_id + 1) as u64;
    LedgerState {
        last_id: id,
        employees: s.employees.insert(id, new_employee(id, name, email, now)),
        ..s
    }
}

pub open spec fn new_leave_type(
    id: u64,
    name: LeaveName,
    quota: u32,
    carryover_allowed: bool,
    now: u64,
) -> LeaveType {
    LeaveType { id, name, quota, carryover_allowed, created_at: now }
}

pub open spec fn create_leave_type_guard(s: LedgerState) -> Option<Fault> {
    if s.last_id == u64::MAX {
        Some(Fault::IdentifiersExhausted)
    } else {
        None
    }
}

pub open spec fn create_leave_type_effect(
    s: LedgerState,
    name: LeaveName,
    quota: u32,
    carryover_allowed: bool,
    now: u64,
) -> LedgerState {
    let id = (s.last_id + 1) as u64;
    LedgerState {
        last_id: id,
        leave_types: s.leave_types.insert(
            id,
            new_leave_type(id, name, quota, carryover_allowed, now),
        ),
        ..s
    }
}

pub open spec fn new_leave_request(id: u64, draft: LeaveRequestPayloadView, now: u64) -> LeaveRequestView {
    LeaveRequestView {
        id,
        employee_id: draft.employee_id,
        leave_type_id: draft.leave_type_id,
        start_date: draft.start_date,
        end_date: draft.end_date,
        status: LeaveStatusEnum::Pending,
        reason: draft.reason,
        created_at: now,
    }
}

pub open spec fn create_leave_request_guard(s: LedgerState, draft: LeaveRequestPayloadView) -> Option<Fault> {
    if draft.reason.len() == 0 {
        Some(Fault::ReasonRequired)
    } else if !s.employees.contains_key(draft.employee_id) {
        Some(Fault::EmployeeNotFound)
    } else if !s.leave_types.contains_key(draft.leave_type_id) {
        Some(Fault::LeaveTypeNotFound)
    } else if leave_request_encoding(new_leave_request(0, draft, 0)).len() > MAX_RECORD_SIZE {
        Some(Fault::RecordTooLarge)
    } else if s.last_id == u64::MAX {
        Some(Fault::IdentifiersExhausted)
    } else {
        None
    }
}

pub open spec fn create_leave_request_effect(s: LedgerState, draft: LeaveRequestPayloadView, now: u64) -> LedgerState {
    let id = (s.last_id + 1) as u64;
    LedgerState {
        last_id: id,
        leave_requests: s.leave_requests.insert(id, new_leave_request(id, draft, now)),
        ..s
    }
}

/// The state in which the request has the given status and all else is as before.
pub open spec fn with_status(s: LedgerState, request_id: u64, status: LeaveStatusEnum) -> LedgerState {
    LedgerState {
        leave_requests: s.leave_requests.insert(
            request_id,
            LeaveRequestView { status, ..s.leave_requests[request_id] },
        ),
        ..s
    }
}

/// The state in which the quota of the request's policy has been taken from the
/// employee's balance for that category, saturating at zero.
pub open spec fn with_debit(s: LedgerState, request_id: u64) -> LedgerState {
    let request = s.leave_requests[request_id];
    let employee = s.employees[request.employee_id];
    let policy = s.leave_types[request.leave_type_id];
    LedgerState {
        employees: s.employees.insert(
            request.employee_id,
            EmployeeView {
                balances: employee.balances.debit_spec(policy.name, policy.quota),
                ..employee
            },
        ),
        ..s
    }
}

/// What a transition returns: the failure that its guard names, or the status reached.
pub open spec fn transition_result(guard: Option<Fault>, reached: LeaveStatusEnum) -> Result<
    LeaveStatusEnum,
    Fault,
> {
    match guard {
        Some(fault) => Err(fault),
        None => Ok(reached),
    }
}

/// The state after a transition: its effect if the guard passes, the state as it
/// was if it does not.
pub open spec fn transition_step(
    guard: Option<Fault>,
    before: LedgerState,
    effect: LedgerState,
) -> LedgerState {
    if guard is None {
        effect
    } else {
        before
    }
}

/// The failure for a request whose employee or policy is gone, if either is.
pub open spec fn dangling(s: LedgerState, request_id: u64) -> Option<Fault> {
    let request = s.leave_requests[request_id];
    if !s.employees.contains_key(request.employee_id) {
        Some(Fault::EmployeeNotFound)
    } else if !s.leave_types.contains_key(request.leave_type_id) {
        Some(Fault::LeaveTypeNotFound)
    } else {
        None
    }
}

pub open spec fn approve_guard(s: LedgerState, request_id: u64) -> Option<Fault> {
    if !s.leave_requests.contains_key(request_id) {
        Some(Fault::LeaveRequestNotFound)
    } else if s.leave_requests[request_id].status == LeaveStatusEnum::Approved {
        Some(Fault::AlreadyApproved)
    } else {
        dangling(s, request_id)
    }
}

pub open spec fn approve_effect(s: LedgerState, request_id: u64) -> LedgerState {
    with_status(with_debit(s, request_id), request_id, LeaveStatusEnum::Approved)
}

pub open spec fn approve_result(s: LedgerState, request_id: u64) -> Result<LeaveStatusEnum, Fault> {
    transition_result(approve_guard(s, request_id), LeaveStatusEnum::Approved)
}

pub open spec fn approve_step(s: LedgerState, request_id: u64) -> LedgerState {
    transition_step(approve_guard(s, request_id), s, approve_effect(s, request_id))
}

pub open spec fn reject_guard(s: LedgerState, request_id: u64) -> Option<Fault> {
    if !s.leave_requests.contains_key(request_id) {
        Some(Fault::LeaveRequestNotFound)
    } else if s.leave_requests[request_id].status == LeaveStatusEnum::Rejected {
        Some(Fault::AlreadyRejected)
    } else {
        None
    }
}

pub open spec fn reject_effect(s: LedgerState, request_id: u64) -> LedgerState {
    with_status(s, request_id, LeaveStatusEnum::Rejected)
}

pub open spec fn reject_result(s: LedgerState, request_id: u64) -> Result<LeaveStatusEnum, Fault> {
    transition_result(reject_guard(s, request_id), LeaveStatusEnum::Rejected)
}

pub open spec fn reject_step(s: LedgerState, request_id: u64) -> LedgerState {
    transition_step(reject_guard(s, request_id), s, reject_effect(s, request_id))
}

pub open spec fn accrue_guard(s: LedgerState, request_id: u64) -> Option<Fault> {
    if !s.leave_requests.contains_key(request_id) {
        Some(Fault::LeaveRequestNotFound)
    } else if s.leave_requests[request_id].status != LeaveStatusEnum::Approved {
        Some(Fault::NotApproved)
    } else {
        dangling(s, request_id)
    }
}

pub open spec fn accrue_effect(s: LedgerState, request_id: u64) -> LedgerState {
    with_status(with_debit(s, request_id), request_id, LeaveStatusEnum::Accrued)
}

pub open spec fn accrue_result(s: LedgerState, request_id: u64) -> Result<LeaveStatusEnum, Fault> {
    transition_result(accrue_guard(s, request_id), LeaveStatusEnum::Accrued)
}

pub open spec fn accrue_step(s: LedgerState, request_id: u64) -> LedgerState {
    transition_step(accrue_guard(s, request_id), s, accrue_effect(s, request_id))
}

pub open spec fn cancel_guard(s: LedgerState, request_id: u64) -> Option<Fault> {
    if !s.leave_requests.contains_key(request_id) {
        Some(Fault::LeaveRequestNotFound)
    } else if s.leave_requests[request_id].status == LeaveStatusEnum::Approved {
        Some(Fault::CannotCancelApproved)
    } else {
        None
    }
}

pub open spec fn cancel_effect(s: LedgerState, request_id: u64) -> LedgerState {
    LedgerState { leave_requests: s.leave_requests.remove(request_id), ..s }
}

pub open spec fn cancel_result(s: LedgerState, request_id: u64) -> Result<LeaveStatusEnum, Fault> {
    transition_result(cancel_guard(s, request_id), LeaveStatusEnum::Canceled)
}

pub open spec fn cancel_step(s: LedgerState, request_id: u64) -> LedgerState {
    transition_step(cancel_guard(s, request_id), s, cancel_effect(s, request_id))
}

/// The employees whose name or address contains `query`, case ignored.
pub open spec fn matching(query: Seq<char>) -> spec_fn(EmployeeView) -> bool {
    |e: EmployeeView| matches_query(e.name, e.email, query)
}

/// The leave requests of one employee.
pub open spec fn filed_by(employee_id: u64) -> spec_fn(LeaveRequestView) -> bool {
    |r: LeaveRequestView| r.employee_id == employee_id
}

/// The leave requests of one employee, oldest first.
pub open spec fn history(s: LedgerState, employee_id: u64) -> Seq<LeaveRequestView> {
    listing(s.leave_requests, filed_by(employee_id))
}

/// What stops a report: an employee without requests, an unknown employee, or a
/// request whose policy is gone.
pub open spec fn report_guard(s: LedgerState, employee_id: u64) -> Option<Fault> {
    let rows = history(s, employee_id);
    if rows.len() == 0 {
        Some(Fault::NoLeaveRequests)
    } else if !s.employees.contains_key(employee_id) {
        Some(Fault::EmployeeNotFound)
    } else if exists|i: int|
        0 <= i < rows.len() && !s.leave_types.contains_key((#[trigger] rows[i]).leave_type_id) {
        Some(Fault::LeaveTypeNotFound)
    } else {
        None
    }
}

/// Registering an employee keeps the ledger well formed and touches nothing else.
pub proof fn lemma_create_employee_wf(s: LedgerState, name: Seq<char>, email: Seq<char>, now: u64)
    requires
        s.wf(),
        s.last_id < u64::MAX,
    ensures
        create_employee_effect(s, name, email, now).wf(),
        !s.employees.contains_key((s.last_id + 1) as u64),
{
    let id = (s.last_id + 1) as u64;
    if s.employees.contains_key(id) {
        assert(id <= s.last_id);
    }
}

pub proof fn lemma_create_leave_type_wf(
    s: LedgerState,
    name: LeaveName,
    quota: u32,
    carryover_allowed: bool,
    now: u64,
)
    requires
        s.wf(),
        s.last_id < u64::MAX,
    ensures
        create_leave_type_effect(s, name, quota, carryover_allowed, now).wf(),
        !s.leave_types.contains_key((s.last_id + 1) as u64),
{
    let id = (s.last_id + 1) as u64;
    if s.leave_types.contains_key(id) {
        assert(id <= s.last_id);
    }
}

pub proof fn lemma_create_leave_request_wf(s: LedgerState, draft: LeaveRequestPayloadView, now: u64)
    requires
        s.wf(),
        s.last_id < u64::MAX,
    ensures
        create_leave_request_effect(s, draft, now).wf(),
        !s.leave_requests.contains_key((s.last_id + 1) as u64),
{
    let id = (s.last_id + 1) as u64;
    if s.leave_requests.contains_key(id) {
        assert(id <= s.last_id);
    }
}

/// A change of status keeps the ledger well formed.
pub proof fn lemma_with_status_wf(s: LedgerState, request_id: u64, status: LeaveStatusEnum)
    requires
        s.wf(),
        s.leave_requests.contains_key(request_id),
    ensures
        with_status(s, request_id, status).wf(),
{
}

/// A debit keeps the ledger well formed.
pub proof fn lemma_with_debit_wf(s: LedgerState, request_id: u64)
    requires
        s.wf(),
        s.leave_requests.contains_key(request_id),
        dangling(s, request_id) is None,
    ensures
        with_debit(s, request_id).wf(),
        with_debit(s, request_id).leave_requests == s.leave_requests,
{
}

/// Removing a request keeps the ledger well formed.
pub proof fn lemma_cancel_wf(s: LedgerState, request_id: u64)
    requires
        s.wf(),
    ensures
        cancel_effect(s, request_id).wf(),
{
}

} // verus!
