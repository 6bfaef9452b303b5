use leave_management::fault::{Fault, FaultKind};
use leave_management::model::{
    Balances, EmployeePayload, LeaveName, LeaveRequestPayload, LeaveStatusEnum,
};
use leave_management::stable::LedgerMemory;
use leave_management::system::{
    accrue_leave, approve_leave_request, cancel_leave_request, create_employee,
    create_leave_request, create_leave_type, get_employee_by_id, get_employee_leave_requests,
    get_leave_history, get_leave_requests, get_leave_type, get_leave_types,
    reject_leave_request, LeaveSystem,
};

fn fresh() -> LeaveSystem {
    LeaveSystem::open(LedgerMemory::new()).unwrap()
}

fn payload(name: &str, email: &str) -> EmployeePayload {
    EmployeePayload { name: name.to_string(), email: email.to_string() }
}

fn draft(employee_id: u64, leave_type_id: u64, reason: &str) -> LeaveRequestPayload {
    LeaveRequestPayload {
        employee_id,
        leave_type_id,
        start_date: 100,
        end_date: 105,
        reason: reason.to_string(),
    }
}

/// An employee (id 1), a policy of the given category and quota (id 2) and a
/// pending request of that employee under that policy (id 3).
fn with_request(name: LeaveName, quota: u32) -> LeaveSystem {
    let mut ctx = fresh();
    let employee = create_employee(&mut ctx, payload("Ada Lovelace", ""), 10).unwrap();
    let policy = create_leave_type(&mut ctx, name, quota, true, 11).unwrap();
    let request = create_leave_request(&mut ctx, draft(employee.id, policy.id, "rest"), 12).unwrap();
    assert_eq!((employee.id, policy.id, request.id), (1, 2, 3));
    ctx
}

fn balance(ctx: &LeaveSystem, employee_id: u64, name: LeaveName) -> u32 {
    get_employee_by_id(ctx, employee_id).unwrap().balances.remaining(name)
}

fn status(ctx: &LeaveSystem, request_id: u64) -> LeaveStatusEnum {
    let rows = get_leave_requests(ctx).unwrap();
    rows.iter().find(|r| r.id == request_id).unwrap().status
}

#[test]
fn new_request_is_pending() {
    let ctx = with_request(LeaveName::Sick, 3);
    let rows = get_leave_requests(&ctx).unwrap();
    assert_eq!(rows.len(), 1);
    assert_eq!(rows[0].id, 3);
    assert_eq!(rows[0].employee_id, 1);
    assert_eq!(rows[0].leave_type_id, 2);
    assert_eq!(rows[0].start_date, 100);
    assert_eq!(rows[0].end_date, 105);
    assert_eq!(rows[0].status, LeaveStatusEnum::Pending);
    assert_eq!(rows[0].reason, "rest");
    assert_eq!(rows[0].created_at, 12);
}

#[test]
fn create_leave_request_needs_a_reason() {
    let mut ctx = with_request(LeaveName::Sick, 3);
    let r = create_leave_request(&mut ctx, draft(1, 2, ""), 13);
    assert_eq!(r, Err(Fault::ReasonRequired));
    assert_eq!(Fault::ReasonRequired.kind(), FaultKind::InvalidPayload);
    assert_eq!(ctx.last_id(), 3);
    assert_eq!(get_leave_requests(&ctx).unwrap().len(), 1);
}

#[test]
fn create_leave_request_needs_the_employee() {
    let mut ctx = with_request(LeaveName::Sick, 3);
    let r = create_leave_request(&mut ctx, draft(77, 2, "rest"), 13);
    assert_eq!(r, Err(Fault::EmployeeNotFound));
    assert_eq!(Fault::EmployeeNotFound.kind(), FaultKind::NotFound);
    assert_eq!(ctx.last_id(), 3);
}

#[test]
fn create_leave_request_needs_the_policy() {
    let mut ctx = with_request(LeaveName::Sick, 3);
    // 1 is an employee, not a policy
    let r = create_leave_request(&mut ctx, draft(1, 1, "rest"), 13);
    assert_eq!(r, Err(Fault::LeaveTypeNotFound));
    assert_eq!(Fault::LeaveTypeNotFound.kind(), FaultKind::NotFound);
    assert_eq!(ctx.last_id(), 3);
}

#[test]
fn create_leave_request_checks_the_reason_first() {
    let mut ctx = fresh();
    assert_eq!(create_leave_request(&mut ctx, draft(5, 6, ""), 1), Err(Fault::ReasonRequired));
    assert_eq!(create_leave_request(&mut ctx, draft(5, 6, "x"), 1), Err(Fault::EmployeeNotFound));
}

#[test]
fn create_leave_request_refuses_a_reason_beyond_the_record_bound() {
    let mut ctx = with_request(LeaveName::Sick, 3);
    // the record is 49 bytes and the reason
    let fits = "r".repeat(1024 - 49);
    let too_long = "r".repeat(1024 - 49 + 1);
    assert_eq!(
        create_leave_request(&mut ctx, draft(1, 2, &too_long), 13),
        Err(Fault::RecordTooLarge)
    );
    assert_eq!(Fault::RecordTooLarge.kind(), FaultKind::Storage);
    assert_eq!(ctx.last_id(), 3);
    let stored = create_leave_request(&mut ctx, draft(1, 2, &fits), 13).unwrap();
    assert_eq!(stored.id, 4);
    assert_eq!(get_leave_requests(&ctx).unwrap()[1].reason, fits);
}

#[test]
fn approve_debits_the_quota() {
    let mut ctx = with_request(LeaveName::Sick, 7);
    assert_eq!(approve_leave_request(&mut ctx, 3), Ok(LeaveStatusEnum::Approved));
    assert_eq!(status(&ctx, 3), LeaveStatusEnum::Approved);
    assert_eq!(balance(&ctx, 1, LeaveName::Sick), 13);
    // the other categories keep the starting allowance
    assert_eq!(
        get_employee_by_id(&ctx, 1).unwrap().balances,
        Balances { annual: 20, sick: 13, maternity: 20, paternity: 20, unpaid: 20 }
    );
}

#[test]
fn approve_then_accrue_debits_twice() {
    let mut ctx = with_request(LeaveName::Annual, 7);
    assert_eq!(approve_leave_request(&mut ctx, 3), Ok(LeaveStatusEnum::Approved));
    assert_eq!(accrue_leave(&mut ctx, 3), Ok(LeaveStatusEnum::Accrued));
    assert_eq!(status(&ctx, 3), LeaveStatusEnum::Accrued);
    assert_eq!(balance(&ctx, 1, LeaveName::Annual), 6);
}

#[test]
fn approve_then_accrue_saturates_at_zero() {
    let mut ctx = with_request(LeaveName::Annual, 20);
    assert_eq!(approve_leave_request(&mut ctx, 3), Ok(LeaveStatusEnum::Approved));
    assert_eq!(balance(&ctx, 1, LeaveName::Annual), 0);
    assert_eq!(accrue_leave(&mut ctx, 3), Ok(LeaveStatusEnum::Accrued));
    assert_eq!(balance(&ctx, 1, LeaveName::Annual), 0);
}

#[test]
fn approve_never_blocks_on_a_short_balance() {
    let mut ctx = with_request(LeaveName::Unpaid, 4_000_000_000);
    assert_eq!(approve_leave_request(&mut ctx, 3), Ok(LeaveStatusEnum::Approved));
    assert_eq!(balance(&ctx, 1, LeaveName::Unpaid), 0);
    assert_eq!(balance(&ctx, 1, LeaveName::Annual), 20);
}

#[test]
fn second_debit_stops_at_zero() {
    let mut ctx = with_request(LeaveName::Maternity, 15);
    approve_leave_request(&mut ctx, 3).unwrap();
    assert_eq!(balance(&ctx, 1, LeaveName::Maternity), 5);
    accrue_leave(&mut ctx, 3).unwrap();
    assert_eq!(balance(&ctx, 1, LeaveName::Maternity), 0);
}

#[test]
fn approve_twice_conflicts_and_debits_once() {
    let mut ctx = with_request(LeaveName::Paternity, 6);
    assert_eq!(approve_leave_request(&mut ctx, 3), Ok(LeaveStatusEnum::Approved));
    assert_eq!(approve_leave_request(&mut ctx, 3), Err(Fault::AlreadyApproved));
    assert_eq!(Fault::AlreadyApproved.kind(), FaultKind::Conflict);
    assert_eq!(status(&ctx, 3), LeaveStatusEnum::Approved);
    assert_eq!(balance(&ctx, 1, LeaveName::Paternity), 14);
}

#[test]
fn cancel_pending_removes_the_request() {
    let mut ctx = with_request(LeaveName::Sick, 3);
    let second = create_leave_request(&mut ctx, draft(1, 2, "more rest"), 13).unwrap();
    assert_eq!(cancel_leave_request(&mut ctx, 3), Ok(LeaveStatusEnum::Canceled));
    let rows = get_leave_requests(&ctx).unwrap();
    assert_eq!(rows.len(), 1);
    assert_eq!(rows[0].id, second.id);
    assert!(rows.iter().all(|r| r.id != 3));
    assert_eq!(balance(&ctx, 1, LeaveName::Sick), 20);
}

#[test]
fn cancel_of_the_only_request_empties_the_listing() {
    let mut ctx = with_request(LeaveName::Sick, 3);
    assert_eq!(cancel_leave_request(&mut ctx, 3), Ok(LeaveStatusEnum::Canceled));
    assert_eq!(get_leave_requests(&ctx), Err(Fault::NoLeaveRequests));
    // a canceled request is gone, so canceling again finds nothing
    assert_eq!(cancel_leave_request(&mut ctx, 3), Err(Fault::LeaveRequestNotFound));
}

#[test]
fn cancel_approved_conflicts_and_changes_nothing() {
    let mut ctx = with_request(LeaveName::Sick, 3);
    approve_leave_request(&mut ctx, 3).unwrap();
    assert_eq!(cancel_leave_request(&mut ctx, 3), Err(Fault::CannotCancelApproved));
    assert_eq!(Fault::CannotCancelApproved.kind(), FaultKind::Conflict);
    assert_eq!(status(&ctx, 3), LeaveStatusEnum::Approved);
    assert_eq!(balance(&ctx, 1, LeaveName::Sick), 17);
    assert_eq!(get_leave_requests(&ctx).unwrap().len(), 1);
}

#[test]
fn cancel_rejected_removes_the_request() {
    let mut ctx = with_request(LeaveName::Sick, 3);
    reject_leave_request(&mut ctx, 3).unwrap();
    assert_eq!(cancel_leave_request(&mut ctx, 3), Ok(LeaveStatusEnum::Canceled));
    assert_eq!(get_leave_requests(&ctx), Err(Fault::NoLeaveRequests));
}

#[test]
fn reject_marks_the_request_and_debits_nothing() {
    let mut ctx = with_request(LeaveName::Sick, 3);
    assert_eq!(reject_leave_request(&mut ctx, 3), Ok(LeaveStatusEnum::Rejected));
    assert_eq!(status(&ctx, 3), LeaveStatusEnum::Rejected);
    assert_eq!(balance(&ctx, 1, LeaveName::Sick), 20);
}

#[test]
fn reject_twice_conflicts() {
    let mut ctx = with_request(LeaveName::Sick, 3);
    reject_leave_request(&mut ctx, 3).unwrap();
    assert_eq!(reject_leave_request(&mut ctx, 3), Err(Fault::AlreadyRejected));
    assert_eq!(Fault::AlreadyRejected.kind(), FaultKind::Conflict);
    assert_eq!(status(&ctx, 3), LeaveStatusEnum::Rejected);
}

#[test]
fn reject_of_an_approved_request_keeps_the_debit() {
    let mut ctx = with_request(LeaveName::Sick, 3);
    approve_leave_request(&mut ctx, 3).unwrap();
    assert_eq!(reject_leave_request(&mut ctx, 3), Ok(LeaveStatusEnum::Rejected));
    assert_eq!(status(&ctx, 3), LeaveStatusEnum::Rejected);
    assert_eq!(balance(&ctx, 1, LeaveName::Sick), 17);
}

#[test]
fn approve_after_reject_is_allowed() {
    let mut ctx = with_request(LeaveName::Sick, 3);
    reject_leave_request(&mut ctx, 3).unwrap();
    assert_eq!(approve_leave_request(&mut ctx, 3), Ok(LeaveStatusEnum::Approved));
    assert_eq!(balance(&ctx, 1, LeaveName::Sick), 17);
}

#[test]
fn accrue_needs_an_approved_request() {
    let mut ctx = with_request(LeaveName::Sick, 3);
    assert_eq!(accrue_leave(&mut ctx, 3), Err(Fault::NotApproved));
    assert_eq!(Fault::NotApproved.kind(), FaultKind::Conflict);
    assert_eq!(status(&ctx, 3), LeaveStatusEnum::Pending);
    assert_eq!(balance(&ctx, 1, LeaveName::Sick), 20);
}

#[test]
fn accrue_twice_conflicts() {
    let mut ctx = with_request(LeaveName::Sick, 3);
    approve_leave_request(&mut ctx, 3).unwrap();
    accrue_leave(&mut ctx, 3).unwrap();
    assert_eq!(accrue_leave(&mut ctx, 3), Err(Fault::NotApproved));
    assert_eq!(balance(&ctx, 1, LeaveName::Sick), 14);
}

#[test]
fn approve_after_accrue_debits_again() {
    let mut ctx = with_request(LeaveName::Sick, 3);
    approve_leave_request(&mut ctx, 3).unwrap();
    accrue_leave(&mut ctx, 3).unwrap();
    assert_eq!(approve_leave_request(&mut ctx, 3), Ok(LeaveStatusEnum::Approved));
    assert_eq!(balance(&ctx, 1, LeaveName::Sick), 11);
}

#[test]
fn transitions_on_an_unknown_request_find_nothing() {
    let mut ctx = with_request(LeaveName::Sick, 3);
    assert_eq!(approve_leave_request(&mut ctx, 9), Err(Fault::LeaveRequestNotFound));
    assert_eq!(reject_leave_request(&mut ctx, 9), Err(Fault::LeaveRequestNotFound));
    assert_eq!(accrue_leave(&mut ctx, 9), Err(Fault::LeaveRequestNotFound));
    assert_eq!(cancel_leave_request(&mut ctx, 9), Err(Fault::LeaveRequestNotFound));
    // identifiers of other kinds are no requests
    assert_eq!(approve_leave_request(&mut ctx, 1), Err(Fault::LeaveRequestNotFound));
    assert_eq!(Fault::LeaveRequestNotFound.kind(), FaultKind::NotFound);
    assert_eq!(status(&ctx, 3), LeaveStatusEnum::Pending);
    assert_eq!(balance(&ctx, 1, LeaveName::Sick), 20);
}

#[test]
fn debit_touches_one_employee_only() {
    let mut ctx = with_request(LeaveName::Sick, 3);
    let other = create_employee(&mut ctx, payload("Grace Hopper", ""), 14).unwrap();
    approve_leave_request(&mut ctx, 3).unwrap();
    assert_eq!(balance(&ctx, other.id, LeaveName::Sick), 20);
    assert_eq!(balance(&ctx, 1, LeaveName::Sick), 17);
}

#[test]
fn two_requests_of_one_employee_share_the_balance() {
    let mut ctx = with_request(LeaveName::Sick, 8);
    let second = create_leave_request(&mut ctx, draft(1, 2, "again"), 13).unwrap();
    approve_leave_request(&mut ctx, 3).unwrap();
    approve_leave_request(&mut ctx, second.id).unwrap();
    assert_eq!(balance(&ctx, 1, LeaveName::Sick), 4);
    approve_leave_request(&mut ctx, 3).unwrap_err();
    accrue_leave(&mut ctx, second.id).unwrap();
    assert_eq!(balance(&ctx, 1, LeaveName::Sick), 0);
}

#[test]
fn get_leave_type_finds_the_policy() {
    let ctx = with_request(LeaveName::Maternity, 90);
    let policy = get_leave_type(&ctx, 2).unwrap();
    assert_eq!(policy.id, 2);
    assert_eq!(policy.name, LeaveName::Maternity);
    assert_eq!(policy.quota, 90);
    assert!(policy.carryover_allowed);
    assert_eq!(policy.created_at, 11);
    assert_eq!(get_leave_type(&ctx, 1), Err(Fault::LeaveTypeNotFound));
    assert_eq!(get_leave_type(&ctx, 0), Err(Fault::LeaveTypeNotFound));
}

#[test]
fn get_leave_types_lists_in_order_of_creation() {
    let mut ctx = fresh();
    assert_eq!(get_leave_types(&ctx), Err(Fault::NoLeaveTypes));
    assert_eq!(Fault::NoLeaveTypes.kind(), FaultKind::NotFound);
    let a = create_leave_type(&mut ctx, LeaveName::Unpaid, 0, false, 1).unwrap();
    let b = create_leave_type(&mut ctx, LeaveName::Annual, 25, true, 2).unwrap();
    assert_eq!(get_leave_types(&ctx), Ok(vec![a, b]));
    assert_eq!(b.quota, 25);
    assert!(!a.carryover_allowed);
}

#[test]
fn get_employee_leave_requests_keeps_to_the_employee() {
    let mut ctx = with_request(LeaveName::Sick, 3);
    let other = create_employee(&mut ctx, payload("Grace Hopper", ""), 14).unwrap();
    assert_eq!(get_employee_leave_requests(&ctx, other.id), Err(Fault::NoLeaveRequests));
    let theirs = create_leave_request(&mut ctx, draft(other.id, 2, "conference"), 15).unwrap();
    let again = create_leave_request(&mut ctx, draft(1, 2, "again"), 16).unwrap();
    let rows = get_employee_leave_requests(&ctx, 1).unwrap();
    assert_eq!(rows.iter().map(|r| r.id).collect::<Vec<u64>>(), vec![3, again.id]);
    assert_eq!(get_employee_leave_requests(&ctx, other.id), Ok(vec![theirs]));
    assert_eq!(get_employee_leave_requests(&ctx, 99), Err(Fault::NoLeaveRequests));
}

#[test]
fn get_leave_history_is_the_listing_of_the_employee() {
    let mut ctx = with_request(LeaveName::Sick, 3);
    approve_leave_request(&mut ctx, 3).unwrap();
    let rows = get_leave_history(&ctx, 1).unwrap();
    assert_eq!(rows.len(), 1);
    assert_eq!(rows[0].status, LeaveStatusEnum::Approved);
    assert_eq!(get_leave_history(&ctx, 2), Err(Fault::NoLeaveRequests));
    assert_eq!(get_leave_history(&ctx, 1), get_employee_leave_requests(&ctx, 1));
}

#[test]
fn get_leave_requests_on_an_empty_ledger_finds_nothing() {
    let ctx = fresh();
    assert_eq!(get_leave_requests(&ctx), Err(Fault::NoLeaveRequests));
    assert_eq!(Fault::NoLeaveRequests.kind(), FaultKind::NotFound);
}
