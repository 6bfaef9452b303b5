//! The leave ledger as a service: one context that owns the identifier counter and
//! the three entity stores, and the operations on it.

use crate::codec::{
    employee_fits, leave_request_fits, lemma_employee_size, lemma_leave_request_size,
    lemma_leave_type_size, Record,
};
use crate::fault::Fault;
use crate::listing::{
    admitted, every, key_space, lemma_ascending_congruent, listing, views, Criterion,
};
use crate::model::{
    Balances, Employee, EmployeePayload, EmployeeView, LeaveName, LeaveRequest,
    LeaveRequestPayload, LeaveRequestView, LeaveStatusEnum, LeaveType,
};
use crate::rules::{
    accrue_result, accrue_step, after_issue, approve_result, approve_step, cancel_effect,
    cancel_result, cancel_step, create_employee_effect, create_employee_guard,
    create_leave_request_effect, create_leave_request_guard, create_leave_type_effect,
    create_leave_type_guard, dangling, filed_by, history, lemma_cancel_wf,
    lemma_create_employee_wf, lemma_create_leave_request_wf, lemma_create_leave_type_wf,
    lemma_with_debit_wf, lemma_with_status_wf, matching, new_employee, new_leave_request,
    new_leave_type, reject_effect, reject_result, reject_step, report_guard, with_debit,
    with_status, LedgerState,
};
use crate::report::{
    render_entry, render_header, render_summary, report_entries, report_text, Tally,
};
use crate::stable::{
    holds_cell, holds_map, same_elsewhere, same_slot, slot_pages, slot_start, slot_value,
    sole_user, LedgerMemory, CELL_HEAD, MAP_HEAD, NO_SLOT,
};
use crate::store::{
    delete_record, get_record, has_record, holds_records, keyed_within, lemma_decoded_empty,
    lemma_stored_fits, list_records, put_record, records, select_records, settle_records,
};
use crate::text::{folded_match, folded_match_spec, generate_email, lowercase_of, to_lowercase};
use ic_stable_structures::cell::ValueError;
use vstd::prelude::*;
use vstd::string::StringExecFns;

verus! {

/// The memory of the identifier counter.
pub const COUNTER_SLOT: u8 = 0;

/// The memory of the employee store.
pub const EMPLOYEE_SLOT: u8 = 1;

/// The memory of the leave request store.
pub const LEAVE_REQUEST_SLOT: u8 = 2;

/// The memory of the leave policy store.
pub const LEAVE_TYPE_SLOT: u8 = 3;

/// The service context: the memory that holds the identifier counter and the
/// three stores.
pub struct LeaveSystem {
    memory: LedgerMemory,
}

/// The ledger that a memory holds: the value of its counter and the records of
/// its three stores.
pub open spec fn ledger_in(memory: LedgerMemory) -> LedgerState {
    LedgerState {
        last_id: slot_value(memory, COUNTER_SLOT),
        employees: records::<Employee>(memory, EMPLOYEE_SLOT),
        leave_types: records::<LeaveType>(memory, LEAVE_TYPE_SLOT),
        leave_requests: records::<LeaveRequest>(memory, LEAVE_REQUEST_SLOT),
    }
}

/// The memory, which nothing else uses, holds a well-formed ledger: a counter, the
/// three stores with nothing but records in them, each record under its own
/// identifier, and no identifier in use beyond the last one issued.
pub open spec fn holds_ledger(memory: LedgerMemory) -> bool {
    &&& sole_user(memory)
    &&& holds_cell(memory, COUNTER_SLOT)
    &&& holds_records::<Employee>(memory, EMPLOYEE_SLOT)
    &&& holds_records::<LeaveType>(memory, LEAVE_TYPE_SLOT)
    &&& holds_records::<LeaveRequest>(memory, LEAVE_REQUEST_SLOT)
    &&& ledger_in(memory).wf()
}

/// What a change to one slot leaves as it was: the counter and the stores of the
/// other slots.
pub proof fn lemma_kept_elsewhere(before: LedgerMemory, after: LedgerMemory, changed: u8)
    requires
        same_elsewhere(before, after, changed),
    ensures
        sole_user(after),
        changed != COUNTER_SLOT ==> slot_value(after, COUNTER_SLOT) == slot_value(
            before,
            COUNTER_SLOT,
        ) && (holds_cell(before, COUNTER_SLOT) ==> holds_cell(after, COUNTER_SLOT)),
        changed != EMPLOYEE_SLOT ==> records::<Employee>(after, EMPLOYEE_SLOT) == records::<
            Employee,
        >(before, EMPLOYEE_SLOT) && (holds_records::<Employee>(before, EMPLOYEE_SLOT)
            ==> holds_records::<Employee>(after, EMPLOYEE_SLOT)),
        changed != LEAVE_TYPE_SLOT ==> records::<LeaveType>(after, LEAVE_TYPE_SLOT) == records::<
            LeaveType,
        >(before, LEAVE_TYPE_SLOT) && (holds_records::<LeaveType>(before, LEAVE_TYPE_SLOT)
            ==> holds_records::<LeaveType>(after, LEAVE_TYPE_SLOT)),
        changed != LEAVE_REQUEST_SLOT ==> records::<LeaveRequest>(after, LEAVE_REQUEST_SLOT)
            == records::<LeaveRequest>(before, LEAVE_REQUEST_SLOT) && (holds_records::<
            LeaveRequest,
        >(before, LEAVE_REQUEST_SLOT) ==> holds_records::<LeaveRequest>(
            after,
            LEAVE_REQUEST_SLOT,
        )),
{
    if changed != COUNTER_SLOT {
        assert(same_slot(before, after, COUNTER_SLOT));
        assert(slot_start(after, COUNTER_SLOT, CELL_HEAD as nat) == slot_start(
            before,
            COUNTER_SLOT,
            CELL_HEAD as nat,
        ));
    }
    if changed != EMPLOYEE_SLOT {
        assert(same_slot(before, after, EMPLOYEE_SLOT));
        lemma_same_map(before, after, EMPLOYEE_SLOT);
    }
    if changed != LEAVE_TYPE_SLOT {
        assert(same_slot(before, after, LEAVE_TYPE_SLOT));
        lemma_same_map(before, after, LEAVE_TYPE_SLOT);
    }
    if changed != LEAVE_REQUEST_SLOT {
        assert(same_slot(before, after, LEAVE_REQUEST_SLOT));
        lemma_same_map(before, after, LEAVE_REQUEST_SLOT);
    }
}

proof fn lemma_same_map(before: LedgerMemory, after: LedgerMemory, slot: u8)
    requires
        same_slot(before, after, slot),
    ensures
        holds_map(before, slot) ==> holds_map(after, slot),
{
    assert(slot_start(after, slot, MAP_HEAD as nat) == slot_start(
        before,
        slot,
        MAP_HEAD as nat,
    ));
}

/// Makes sure that a slot holds a counter: a slot that holds nothing gets a cell
/// with the value `first`, a slot that holds a cell is left as it is. Returns
/// whether it does; a memory that holds a cell there already is untouched.
pub fn settle_counter(memory: &mut LedgerMemory, slot: u8, first: u64) -> (ok: bool)
    requires
        sole_user(*old(memory)),
        slot != NO_SLOT,
    ensures
        ok ==> holds_cell(*final(memory), slot),
        same_elsewhere(*old(memory), *final(memory), slot),
        old(memory).blank() ==> ok && slot_value(*final(memory), slot) == first,
        holds_cell(*old(memory), slot) ==> ok,
        slot_pages(*old(memory), slot) != 0 ==> *final(memory) == *old(memory),
{
    if memory.pages(slot) == 0 {
        match memory.cell_create(slot, first) {
            Ok(_) => true,
            Err(_) => false,
        }
    } else {
        memory.has_cell(slot)
    }
}

impl View for LeaveSystem {
    type V = LedgerState;

    open spec fn view(&self) -> LedgerState {
        ledger_in(self.kept())
    }
}

impl LeaveSystem {
    /// The memory that the ledger is kept in.
    pub closed spec fn kept(&self) -> LedgerMemory {
        self.memory
    }

    /// The invariant of the service: its memory holds a well-formed ledger.
    pub open spec fn wf(&self) -> bool {
        holds_ledger(self.kept())
    }

    /// Opens the ledger kept in `memory`, which nothing else may be using and
    /// which the ledger keeps until it is closed, and checks all that it holds. A
    /// memory that nothing was written to gives the empty ledger, whose first
    /// identifier will be 1; the memory of a ledger that was closed gives that
    /// ledger again. `None` when a slot holds anything but what a ledger keeps
    /// there, or when the records are no well-formed ledger.
    pub fn open(memory: LedgerMemory) -> (r: Option<LeaveSystem>)
        requires
            sole_user(memory),
        ensures
            r matches Some(ctx) ==> ctx.wf(),
            memory.blank() ==> (r matches Some(ctx) && ctx@ == LedgerState::empty()),
            holds_ledger(memory) ==> (r matches Some(ctx) && ctx.kept() == memory),
    {
        let mut memory = memory;
        let ghost given = memory;
        if !settle_counter(&mut memory, COUNTER_SLOT, 0) {
            return None;
        }
        let ghost counted = memory;
        proof {
            lemma_kept_elsewhere(given, counted, COUNTER_SLOT);
            assert(same_slot(given, counted, EMPLOYEE_SLOT));
            assert(same_slot(given, counted, LEAVE_TYPE_SLOT));
            assert(same_slot(given, counted, LEAVE_REQUEST_SLOT));
        }
        if !settle_records::<Employee>(&mut memory, EMPLOYEE_SLOT) {
            return None;
        }
        let ghost staffed = memory;
        proof {
            lemma_kept_elsewhere(counted, staffed, EMPLOYEE_SLOT);
            assert(same_slot(counted, staffed, LEAVE_TYPE_SLOT));
            assert(same_slot(counted, staffed, LEAVE_REQUEST_SLOT));
        }
        if !settle_records::<LeaveType>(&mut memory, LEAVE_TYPE_SLOT) {
            return None;
        }
        let ghost ruled = memory;
        proof {
            lemma_kept_elsewhere(staffed, ruled, LEAVE_TYPE_SLOT);
            assert(same_slot(staffed, ruled, LEAVE_REQUEST_SLOT));
        }
        if !settle_records::<LeaveRequest>(&mut memory, LEAVE_REQUEST_SLOT) {
            return None;
        }
        proof {
            lemma_kept_elsewhere(ruled, memory, LEAVE_REQUEST_SLOT);
        }
        let last_id: u64 = memory.cell_get(COUNTER_SLOT);
        let keyed: bool = keyed_within::<Employee>(&memory, EMPLOYEE_SLOT, last_id)
            && keyed_within::<LeaveType>(&memory, LEAVE_TYPE_SLOT, last_id)
            && keyed_within::<LeaveRequest>(&memory, LEAVE_REQUEST_SLOT, last_id);
        let ghost held = ledger_in(memory);
        assert(keyed ==> held.wf());
        assert(held.wf() ==> keyed) by {
            if held.wf() {
                assert forall|id: u64| #[trigger]
                    records::<Employee>(memory, EMPLOYEE_SLOT).contains_key(id) implies Employee::id_of(
                    records::<Employee>(memory, EMPLOYEE_SLOT)[id],
                ) == id && id <= last_id by {
                    assert(held.employees.contains_key(id));
                }
                assert forall|id: u64| #[trigger]
                    records::<LeaveType>(memory, LEAVE_TYPE_SLOT).contains_key(id) implies LeaveType::id_of(
                    records::<LeaveType>(memory, LEAVE_TYPE_SLOT)[id],
                ) == id && id <= last_id by {
                    assert(held.leave_types.contains_key(id));
                }
                assert forall|id: u64| #[trigger]
                    records::<LeaveRequest>(memory, LEAVE_REQUEST_SLOT).contains_key(
                        id,
                    ) implies LeaveRequest::id_of(
                    records::<LeaveRequest>(memory, LEAVE_REQUEST_SLOT)[id],
                ) == id && id <= last_id by {
                    assert(held.leave_requests.contains_key(id));
                }
            }
        }
        proof {
            lemma_decoded_empty::<Employee>();
            lemma_decoded_empty::<LeaveType>();
            lemma_decoded_empty::<LeaveRequest>();
            if given.blank() {
                assert(held =~= LedgerState::empty());
            }
        }
        if keyed {
            Some(LeaveSystem { memory })
        } else {
            None
        }
    }

    /// Gives up the ledger and hands back its memory, which holds all that the
    /// ledger held.
    pub fn close(self) -> (memory: LedgerMemory)
        ensures
            memory == self.kept(),
            self.wf() ==> holds_ledger(memory) && ledger_in(memory) == self@,
    {
        self.memory
    }

    /// The last identifier issued.
    pub fn last_id(&self) -> (id: u64)
        requires
            self.wf(),
        ensures
            id == self@.last_id,
    {
        self.memory.cell_get(COUNTER_SLOT)
    }
}

/// What an allocation returns once the counter has been asked to take `next`: the
/// new identifier if the counter took it, a storage failure if it did not.
pub fn allocation_outcome(next: u64, persisted: Result<u64, ValueError>) -> (r: Result<u64, Fault>)
    ensures
        persisted is Ok ==> r == Ok::<u64, Fault>(next),
        persisted is Err ==> r == Err::<u64, Fault>(Fault::CounterNotPersisted),
{
    match persisted {
        Ok(_) => Ok(next),
        Err(_) => Err(Fault::CounterNotPersisted),
    }
}

/// Issues the next identifier: one more than the last, made durable before it is
/// handed out. Fails, and issues nothing, exactly when no identifier is left.
pub fn increment_id_counter(ctx: &mut LeaveSystem) -> (r: Result<u64, Fault>)
    requires
        old(ctx).wf(),
    ensures
        final(ctx).wf(),
        match r {
            Ok(id) => {
                &&& old(ctx)@.last_id < u64::MAX
                &&& id == old(ctx)@.last_id + 1
                &&& final(ctx)@ == after_issue(old(ctx)@)
            },
            Err(fault) => {
                &&& old(ctx)@.last_id == u64::MAX
                &&& fault == Fault::IdentifiersExhausted
                &&& final(ctx)@ == old(ctx)@
            },
        },
{
    let current: u64 = ctx.memory.cell_get(COUNTER_SLOT);
    if current == u64::MAX {
        return Err(Fault::IdentifiersExhausted);
    }
    let next: u64 = current + 1;
    let persisted: Result<u64, ValueError> = ctx.memory.cell_set(COUNTER_SLOT, next);
    proof {
        // only the counter changed, and it did not fall
        lemma_kept_elsewhere(old(ctx).kept(), ctx.kept(), COUNTER_SLOT);
        assert(ctx@.employees == old(ctx)@.employees);
        assert(ctx@.leave_types == old(ctx)@.leave_types);
        assert(ctx@.leave_requests == old(ctx)@.leave_requests);
        assert(ctx@.last_id >= old(ctx)@.last_id);
        assert(ctx@.wf());
    }
    allocation_outcome(next, persisted)
}

/// Registers an employee with the starting balance in every leave category. An
/// empty address is replaced by the generated one. Nothing is written on failure.
pub fn create_employee(ctx: &mut LeaveSystem, payload: EmployeePayload, now: u64) -> (r: Result<
    Employee,
    Fault,
>)
    requires
        old(ctx).wf(),
    ensures
        final(ctx).wf(),
        match r {
            Ok(employee) => {
                &&& create_employee_guard(old(ctx)@, payload.name@, payload.email@) is None
                &&& final(ctx)@ == create_employee_effect(
                    old(ctx)@,
                    payload.name@,
                    payload.email@,
                    now,
                )
                &&& employee@ == new_employee(
                    final(ctx)@.last_id,
                    payload.name@,
                    payload.email@,
                    now,
                )
            },
            Err(fault) => {
                &&& create_employee_guard(old(ctx)@, payload.name@, payload.email@) == Some(fault)
                &&& final(ctx)@ == old(ctx)@
            },
        },
{
    if payload.name.as_str().is_empty() {
        return Err(Fault::EmployeeNameRequired);
    }
    let email: String = if payload.email.as_str().is_empty() {
        generate_email(payload.name.as_str())
    } else {
        payload.email
    };
    proof {
        lemma_employee_size(new_employee(0, payload.name@, payload.email@, 0));
    }
    if !employee_fits(payload.name.as_str(), email.as_str()) {
        return Err(Fault::RecordTooLarge);
    }
    let id: u64 = match increment_id_counter(ctx) {
        Ok(id) => id,
        Err(fault) => { return Err(fault); },
    };
    let employee = Employee {
        id,
        name: payload.name,
        email,
        balances: Balances::initial(),
        created_at: now,
    };
    proof {
        lemma_employee_size(employee@);
        lemma_create_employee_wf(old(ctx)@, payload.name@, payload.email@, now);
    }
    let ghost before = ctx.kept();
    let stored: bool = put_record::<Employee>(&mut ctx.memory, EMPLOYEE_SLOT, id, &employee);
    proof {
        lemma_kept_elsewhere(before, ctx.kept(), EMPLOYEE_SLOT);
    }
    assert(ctx@ =~= create_employee_effect(old(ctx)@, payload.name@, payload.email@, now));
    Ok(employee)
}

/// Adds a leave policy to the catalog. Nothing is written on failure.
pub fn create_leave_type(
    ctx: &mut LeaveSystem,
    name: LeaveName,
    quota: u32,
    carryover_allowed: bool,
    now: u64,
) -> (r: Result<LeaveType, Fault>)
    requires
        old(ctx).wf(),
    ensures
        final(ctx).wf(),
        match r {
            Ok(policy) => {
                &&& create_leave_type_guard(old(ctx)@) is None
                &&& final(ctx)@ == create_leave_type_effect(
                    old(ctx)@,
                    name,
                    quota,
                    carryover_allowed,
                    now,
                )
                &&& policy == new_leave_type(final(ctx)@.last_id, name, quota, carryover_allowed, now)
            },
            Err(fault) => {
                &&& create_leave_type_guard(old(ctx)@) == Some(fault)
                &&& final(ctx)@ == old(ctx)@
            },
        },
{
    let id: u64 = match increment_id_counter(ctx) {
        Ok(id) => id,
        Err(fault) => { return Err(fault); },
    };
    let policy = LeaveType { id, name, quota, carryover_allowed, created_at: now };
    proof {
        lemma_create_leave_type_wf(old(ctx)@, name, quota, carryover_allowed, now);
        lemma_leave_type_size(policy);
    }
    let ghost before = ctx.kept();
    let stored: bool = put_record::<LeaveType>(&mut ctx.memory, LEAVE_TYPE_SLOT, id, &policy);
    proof {
        lemma_kept_elsewhere(before, ctx.kept(), LEAVE_TYPE_SLOT);
    }
    assert(ctx@ =~= create_leave_type_effect(old(ctx)@, name, quota, carryover_allowed, now));
    Ok(policy)
}

/// Files a leave request, which starts as pending. The employee and the policy it
/// names must exist and its reason must not be empty. Nothing is written on failure.
pub fn create_leave_request(ctx: &mut LeaveSystem, payload: LeaveRequestPayload, now: u64) -> (r:
    Result<LeaveRequest, Fault>)
    requires
        old(ctx).wf(),
    ensures
        final(ctx).wf(),
        match r {
            Ok(request) => {
                &&& create_leave_request_guard(old(ctx)@, payload@) is None
                &&& final(ctx)@ == create_leave_request_effect(old(ctx)@, payload@, now)
                &&& request@ == new_leave_request(final(ctx)@.last_id, payload@, now)
            },
            Err(fault) => {
                &&& create_leave_request_guard(old(ctx)@, payload@) == Some(fault)
                &&& final(ctx)@ == old(ctx)@
            },
        },
{
    if payload.reason.as_str().is_empty() {
        return Err(Fault::ReasonRequired);
    }
    if !has_record::<Employee>(&ctx.memory, EMPLOYEE_SLOT, payload.employee_id) {
        return Err(Fault::EmployeeNotFound);
    }
    if !has_record::<LeaveType>(&ctx.memory, LEAVE_TYPE_SLOT, payload.leave_type_id) {
        return Err(Fault::LeaveTypeNotFound);
    }
    proof {
        lemma_leave_request_size(new_leave_request(0, payload@, 0));
    }
    if !leave_request_fits(payload.reason.as_str()) {
        return Err(Fault::RecordTooLarge);
    }
    let id: u64 = match increment_id_counter(ctx) {
        Ok(id) => id,
        Err(fault) => { return Err(fault); },
    };
    let request = LeaveRequest {
        id,
        employee_id: payload.employee_id,
        leave_type_id: payload.leave_type_id,
        start_date: payload.start_date,
        end_date: payload.end_date,
        status: LeaveStatusEnum::Pending,
        reason: payload.reason,
        created_at: now,
    };
    proof {
        lemma_leave_request_size(request@);
        lemma_create_leave_request_wf(old(ctx)@, payload@, now);
    }
    let ghost before = ctx.kept();
    let stored: bool = put_record::<LeaveRequest>(&mut ctx.memory, LEAVE_REQUEST_SLOT, id, &request);
    proof {
        lemma_kept_elsewhere(before, ctx.kept(), LEAVE_REQUEST_SLOT);
    }
    assert(ctx@ =~= create_leave_request_effect(old(ctx)@, payload@, now));
    Ok(request)
}

/// Writes the debit of one quota and the new status of a request whose employee
/// and policy are at hand.
fn settle(
    ctx: &mut LeaveSystem,
    request: LeaveRequest,
    employee: Employee,
    policy: LeaveType,
    status: LeaveStatusEnum,
)
    requires
        old(ctx).wf(),
        old(ctx)@.leave_requests.contains_key(request.id),
        old(ctx)@.leave_requests[request.id] == request@,
        dangling(old(ctx)@, request.id) is None,
        employee@ == old(ctx)@.employees[request.employee_id],
        policy == old(ctx)@.leave_types[request.leave_type_id],
    ensures
        final(ctx).wf(),
        final(ctx)@ == with_status(with_debit(old(ctx)@, request.id), request.id, status),
{
    let request_id: u64 = request.id;
    let employee_id: u64 = request.employee_id;
    let mut employee = employee;
    let mut request = request;
    proof {
        lemma_stored_fits::<Employee>(ctx.kept(), EMPLOYEE_SLOT, employee_id);
        lemma_stored_fits::<LeaveRequest>(ctx.kept(), LEAVE_REQUEST_SLOT, request_id);
        lemma_employee_size(employee@);
        lemma_leave_request_size(request@);
        lemma_with_debit_wf(old(ctx)@, request_id);
        lemma_with_status_wf(with_debit(old(ctx)@, request_id), request_id, status);
    }
    employee.balances = employee.balances.debit(policy.name, policy.quota);
    request.status = status;
    proof {
        lemma_employee_size(employee@);
        lemma_leave_request_size(request@);
    }
    let ghost before = ctx.kept();
    let debited: bool = put_record::<Employee>(&mut ctx.memory, EMPLOYEE_SLOT, employee_id, &employee);
    proof {
        lemma_kept_elsewhere(before, ctx.kept(), EMPLOYEE_SLOT);
    }
    let ghost before = ctx.kept();
    let marked: bool = put_record::<LeaveRequest>(&mut ctx.memory, LEAVE_REQUEST_SLOT, request_id, &request);
    proof {
        lemma_kept_elsewhere(before, ctx.kept(), LEAVE_REQUEST_SLOT);
    }
    assert(ctx@ =~= with_status(with_debit(old(ctx)@, request_id), request_id, status));
}

/// Approves a request that is not approved yet and takes the quota of its policy
/// from the employee's balance, saturating at zero. Nothing is written on failure.
pub fn approve_leave_request(ctx: &mut LeaveSystem, request_id: u64) -> (r: Result<
    LeaveStatusEnum,
    Fault,
>)
    requires
        old(ctx).wf(),
    ensures
        final(ctx).wf(),
        r == approve_result(old(ctx)@, request_id),
        final(ctx)@ == approve_step(old(ctx)@, request_id),
{
    let request: LeaveRequest = match get_record::<LeaveRequest>(&ctx.memory, LEAVE_REQUEST_SLOT, request_id) {
        Some(request) => request,
        None => { return Err(Fault::LeaveRequestNotFound); },
    };
    if request.status == LeaveStatusEnum::Approved {
        return Err(Fault::AlreadyApproved);
    }
    let employee: Employee = match get_record::<Employee>(&ctx.memory, EMPLOYEE_SLOT, request.employee_id) {
        Some(employee) => employee,
        None => { return Err(Fault::EmployeeNotFound); },
    };
    let policy: LeaveType = match get_record::<LeaveType>(&ctx.memory, LEAVE_TYPE_SLOT, request.leave_type_id) {
        Some(policy) => policy,
        None => { return Err(Fault::LeaveTypeNotFound); },
    };
    settle(ctx, request, employee, policy, LeaveStatusEnum::Approved);
    Ok(LeaveStatusEnum::Approved)
}

/// Rejects a request that is not rejected yet. Nothing is written on failure.
pub fn reject_leave_request(ctx: &mut LeaveSystem, request_id: u64) -> (r: Result<
    LeaveStatusEnum,
    Fault,
>)
    requires
        old(ctx).wf(),
    ensures
        final(ctx).wf(),
        r == reject_result(old(ctx)@, request_id),
        final(ctx)@ == reject_step(old(ctx)@, request_id),
{
    let mut request: LeaveRequest = match get_record::<LeaveRequest>(&ctx.memory, LEAVE_REQUEST_SLOT, request_id) {
        Some(request) => request,
        None => { return Err(Fault::LeaveRequestNotFound); },
    };
    if request.status == LeaveStatusEnum::Rejected {
        return Err(Fault::AlreadyRejected);
    }
    proof {
        lemma_stored_fits::<LeaveRequest>(ctx.kept(), LEAVE_REQUEST_SLOT, request_id);
        lemma_leave_request_size(request@);
        lemma_with_status_wf(old(ctx)@, request_id, LeaveStatusEnum::Rejected);
    }
    request.status = LeaveStatusEnum::Rejected;
    proof {
        lemma_leave_request_size(request@);
    }
    let ghost before = ctx.kept();
    let marked: bool = put_record::<LeaveRequest>(&mut ctx.memory, LEAVE_REQUEST_SLOT, request_id, &request);
    proof {
        lemma_kept_elsewhere(before, ctx.kept(), LEAVE_REQUEST_SLOT);
    }
    assert(ctx@ =~= reject_effect(old(ctx)@, request_id));
    Ok(LeaveStatusEnum::Rejected)
}

/// Accrues an approved request: the quota of its policy is taken from the
/// employee's balance once more, saturating at zero. Nothing is written on failure.
pub fn accrue_leave(ctx: &mut LeaveSystem, request_id: u64) -> (r: Result<LeaveStatusEnum, Fault>)
    requires
        old(ctx).wf(),
    ensures
        final(ctx).wf(),
        r == accrue_result(old(ctx)@, request_id),
        final(ctx)@ == accrue_step(old(ctx)@, request_id),
{
    let request: LeaveRequest = match get_record::<LeaveRequest>(&ctx.memory, LEAVE_REQUEST_SLOT, request_id) {
        Some(request) => request,
        None => { return Err(Fault::LeaveRequestNotFound); },
    };
    if request.status != LeaveStatusEnum::Approved {
        return Err(Fault::NotApproved);
    }
    let employee: Employee = match get_record::<Employee>(&ctx.memory, EMPLOYEE_SLOT, request.employee_id) {
        Some(employee) => employee,
        None => { return Err(Fault::EmployeeNotFound); },
    };
    let policy: LeaveType = match get_record::<LeaveType>(&ctx.memory, LEAVE_TYPE_SLOT, request.leave_type_id) {
        Some(policy) => policy,
        None => { return Err(Fault::LeaveTypeNotFound); },
    };
    settle(ctx, request, employee, policy, LeaveStatusEnum::Accrued);
    Ok(LeaveStatusEnum::Accrued)
}

/// Cancels a request that is not approved: the request leaves the store. Nothing
/// is written on failure.
pub fn cancel_leave_request(ctx: &mut LeaveSystem, request_id: u64) -> (r: Result<
    LeaveStatusEnum,
    Fault,
>)
    requires
        old(ctx).wf(),
    ensures
        final(ctx).wf(),
        r == cancel_result(old(ctx)@, request_id),
        final(ctx)@ == cancel_step(old(ctx)@, request_id),
{
    let request: LeaveRequest = match get_record::<LeaveRequest>(&ctx.memory, LEAVE_REQUEST_SLOT, request_id) {
        Some(request) => request,
        None => { return Err(Fault::LeaveRequestNotFound); },
    };
    if request.status == LeaveStatusEnum::Approved {
        return Err(Fault::CannotCancelApproved);
    }
    proof {
        lemma_cancel_wf(old(ctx)@, request_id);
    }
    let ghost before = ctx.kept();
    delete_record::<LeaveRequest>(&mut ctx.memory, LEAVE_REQUEST_SLOT, request_id);
    proof {
        lemma_kept_elsewhere(before, ctx.kept(), LEAVE_REQUEST_SLOT);
    }
    assert(ctx@ =~= cancel_effect(old(ctx)@, request_id));
    Ok(LeaveStatusEnum::Canceled)
}

/// The leave policy with the given identifier.
pub fn get_leave_type(ctx: &LeaveSystem, leave_type_id: u64) -> (r: Result<LeaveType, Fault>)
    requires
        ctx.wf(),
    ensures
        match r {
            Ok(policy) => ctx@.leave_types.contains_key(leave_type_id) && policy
                == ctx@.leave_types[leave_type_id],
            Err(fault) => !ctx@.leave_types.contains_key(leave_type_id) && fault
                == Fault::LeaveTypeNotFound,
        },
{
    match get_record::<LeaveType>(&ctx.memory, LEAVE_TYPE_SLOT, leave_type_id) {
        Some(policy) => Ok(policy),
        None => Err(Fault::LeaveTypeNotFound),
    }
}

/// The employee with the given identifier.
pub fn get_employee_by_id(ctx: &LeaveSystem, employee_id: u64) -> (r: Result<Employee, Fault>)
    requires
        ctx.wf(),
    ensures
        match r {
            Ok(employee) => ctx@.employees.contains_key(employee_id) && employee@
                == ctx@.employees[employee_id],
            Err(fault) => !ctx@.employees.contains_key(employee_id) && fault
                == Fault::EmployeeNotFound,
        },
{
    match get_record::<Employee>(&ctx.memory, EMPLOYEE_SLOT, employee_id) {
        Some(employee) => Ok(employee),
        None => Err(Fault::EmployeeNotFound),
    }
}

/// A listing, or the given failure where the listing is empty.
fn non_empty<T>(rows: Vec<T>, otherwise: Fault) -> (r: Result<Vec<T>, Fault>)
    ensures
        match r {
            Ok(listed) => listed == rows && rows@.len() > 0,
            Err(fault) => fault == otherwise && rows@.len() == 0,
        },
{
    if rows.len() == 0 {
        Err(otherwise)
    } else {
        Ok(rows)
    }
}

/// All employees, in ascending order of identifier; a failure where there is none.
pub fn get_employees(ctx: &LeaveSystem) -> (r: Result<Vec<Employee>, Fault>)
    requires
        ctx.wf(),
    ensures
        match r {
            Ok(rows) => rows@.len() > 0 && views(rows@) == listing(ctx@.employees, every()),
            Err(fault) => fault == Fault::NoEmployees && listing(ctx@.employees, every()).len()
                == 0,
        },
{
    non_empty(list_records::<Employee>(&ctx.memory, EMPLOYEE_SLOT), Fault::NoEmployees)
}

/// All leave policies, in ascending order of identifier; a failure where there is none.
pub fn get_leave_types(ctx: &LeaveSystem) -> (r: Result<Vec<LeaveType>, Fault>)
    requires
        ctx.wf(),
    ensures
        match r {
            Ok(rows) => rows@.len() > 0 && views(rows@) == listing(ctx@.leave_types, every()),
            Err(fault) => fault == Fault::NoLeaveTypes && listing(
                ctx@.leave_types,
                every(),
            ).len() == 0,
        },
{
    non_empty(list_records::<LeaveType>(&ctx.memory, LEAVE_TYPE_SLOT), Fault::NoLeaveTypes)
}

/// All leave requests, in ascending order of identifier; a failure where there is none.
pub fn get_leave_requests(ctx: &LeaveSystem) -> (r: Result<Vec<LeaveRequest>, Fault>)
    requires
        ctx.wf(),
    ensures
        match r {
            Ok(rows) => rows@.len() > 0 && views(rows@) == listing(ctx@.leave_requests, every()),
            Err(fault) => fault == Fault::NoLeaveRequests && listing(
                ctx@.leave_requests,
                every(),
            ).len() == 0,
        },
{
    non_empty(list_records::<LeaveRequest>(&ctx.memory, LEAVE_REQUEST_SLOT), Fault::NoLeaveRequests)
}

/// Admits the employees whose lower-cased name or address contains a lower-cased query.
pub struct FoldedQuery {
    pub lowered: String,
}

impl Criterion<Employee> for FoldedQuery {
    open spec fn admits(&self, v: EmployeeView) -> bool {
        folded_match_spec(lowercase_of(v.name), lowercase_of(v.email), self.lowered@)
    }

    fn test(&self, row: &Employee) -> (hit: bool) {
        let name: String = to_lowercase(row.name.as_str());
        let email: String = to_lowercase(row.email.as_str());
        folded_match(name.as_str(), email.as_str(), self.lowered.as_str())
    }
}

/// Admits the leave requests of one employee.
pub struct FiledBy {
    pub employee_id: u64,
}

impl Criterion<LeaveRequest> for FiledBy {
    open spec fn admits(&self, v: LeaveRequestView) -> bool {
        v.employee_id == self.employee_id
    }

    fn test(&self, row: &LeaveRequest) -> (hit: bool) {
        row.employee_id == self.employee_id
    }
}

/// The employees whose name or address contains `query`, case ignored, in
/// ascending order of identifier; a failure where there is none.
pub fn search_employee(ctx: &LeaveSystem, query: &str) -> (r: Result<Vec<Employee>, Fault>)
    requires
        ctx.wf(),
    ensures
        match r {
            Ok(rows) => rows@.len() > 0 && views(rows@) == listing(
                ctx@.employees,
                matching(query@),
            ),
            Err(fault) => fault == Fault::NoMatchingEmployees && listing(
                ctx@.employees,
                matching(query@),
            ).len() == 0,
        },
{
    let criterion = FoldedQuery { lowered: to_lowercase(query) };
    let rows: Vec<Employee> = select_records::<Employee, _>(&ctx.memory, EMPLOYEE_SLOT, &criterion);
    proof {
        lemma_ascending_congruent(
            ctx@.employees,
            admitted::<Employee, FoldedQuery>(criterion),
            matching(query@),
            key_space(),
        );
        assert(views(rows@).len() == rows@.len());
    }
    non_empty(rows, Fault::NoMatchingEmployees)
}

/// The leave requests of one employee, in ascending order of identifier; a
/// failure where there is none.
pub fn get_employee_leave_requests(ctx: &LeaveSystem, employee_id: u64) -> (r: Result<
    Vec<LeaveRequest>,
    Fault,
>)
    requires
        ctx.wf(),
    ensures
        match r {
            Ok(rows) => rows@.len() > 0 && views(rows@) == listing(
                ctx@.leave_requests,
                filed_by(employee_id),
            ),
            Err(fault) => fault == Fault::NoLeaveRequests && listing(
                ctx@.leave_requests,
                filed_by(employee_id),
            ).len() == 0,
        },
{
    let criterion = FiledBy { employee_id };
    let rows: Vec<LeaveRequest> = select_records::<LeaveRequest, _>(&ctx.memory, LEAVE_REQUEST_SLOT, &criterion);
    proof {
        lemma_ascending_congruent(
            ctx@.leave_requests,
            admitted::<LeaveRequest, FiledBy>(criterion),
            filed_by(employee_id),
            key_space(),
        );
        assert(views(rows@).len() == rows@.len());
    }
    non_empty(rows, Fault::NoLeaveRequests)
}

/// The leave history of one employee: the requests they filed, oldest first.
pub fn get_leave_history(ctx: &LeaveSystem, employee_id: u64) -> (r: Result<
    Vec<LeaveRequest>,
    Fault,
>)
    requires
        ctx.wf(),
    ensures
        match r {
            Ok(rows) => rows@.len() > 0 && views(rows@) == listing(
                ctx@.leave_requests,
                filed_by(employee_id),
            ),
            Err(fault) => fault == Fault::NoLeaveRequests && listing(
                ctx@.leave_requests,
                filed_by(employee_id),
            ).len() == 0,
        },
{
    get_employee_leave_requests(ctx, employee_id)
}

/// The leave report of one employee: a paragraph for each request they filed,
/// oldest first, with the employee's balance as it is now, then the days that the
/// requests of each category add up to.
pub fn generate_leave_report(ctx: &LeaveSystem, employee_id: u64) -> (r: Result<String, Fault>)
    requires
        ctx.wf(),
    ensures
        match r {
            Ok(text) => {
                &&& report_guard(ctx@, employee_id) is None
                &&& text@ == report_text(
                    ctx@.employees[employee_id],
                    history(ctx@, employee_id),
                    ctx@.leave_types,
                )
            },
            Err(fault) => report_guard(ctx@, employee_id) == Some(fault),
        },
{
    let rows: Vec<LeaveRequest> = match get_employee_leave_requests(ctx, employee_id) {
        Ok(rows) => rows,
        Err(fault) => { return Err(fault); },
    };
    let employee: Employee = match get_employee_by_id(ctx, employee_id) {
        Ok(employee) => employee,
        Err(fault) => { return Err(fault); },
    };
    let ghost listed = views(rows@);
    let mut entries: String = String::new();
    let mut tally: Tally = Tally::new();
    let mut i: usize = 0;
    assert(listed.take(0) =~= Seq::empty());
    while i < rows.len()
        invariant
            ctx.wf(),
            i <= rows.len(),
            listed == views(rows@),
            listed == history(ctx@, employee_id),
            listed.len() > 0,
            ctx@.employees.contains_key(employee_id),
            employee@ == ctx@.employees[employee_id],
            forall|j: int| 0 <= j < i ==> ctx@.leave_types.contains_key((#[trigger] listed[j]).leave_type_id),
            entries@ == report_entries(listed.take(i as int), ctx@.leave_types, employee.balances),
            tally.wf(),
            tally.counts(listed.take(i as int), ctx@.leave_types),
        decreases rows.len() - i,
    {
        let request: &LeaveRequest = &rows[i];
        assert(listed[i as int] == request@);
        let policy: LeaveType = match get_leave_type(ctx, request.leave_type_id) {
            Ok(policy) => policy,
            Err(fault) => {
                assert(!ctx@.leave_types.contains_key(listed[i as int].leave_type_id));
                return Err(fault);
            },
        };
        let balance: u32 = employee.balances.remaining(policy.name);
        let entry: String = render_entry(request, &policy, balance);
        entries.append(entry.as_str());
        tally.add(policy.name, policy.quota);
        proof {
            let next = listed.take(i + 1);
            assert(next.drop_last() =~= listed.take(i as int));
            assert(next.last() == listed[i as int]);
        }
        i = i + 1;
    }
    assert(listed.take(i as int) =~= listed);
    let mut text: String = render_header(&employee);
    text.append(entries.as_str());
    text.append("Summary of Leave Taken by Type:\n");
    let summary: String = render_summary(&tally);
    text.append(summary.as_str());
    Ok(text)
}

} // verus!
