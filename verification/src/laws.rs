//! Laws of the ledger, proved of the rules that the operations are specified by.

use crate::codec::{
    lemma_employee_size, lemma_leave_request_size, EMPLOYEE_HEADER, LEAVE_REQUEST_HEADER,
};
use crate::fault::{Fault, FaultKind};
use crate::listing::{every, key_space, lemma_ascending, listing, listing_ids};
use crate::model::{
    debited, LeaveName, LeaveRequestPayloadView, LeaveRequestView, LeaveStatusEnum,
    STARTING_BALANCE,
};
use crate::rules::{
    accrue_guard, accrue_result, accrue_step, after_issue, approve_guard, approve_result, approve_step,
    cancel_guard, cancel_result, cancel_step, create_employee_effect, create_employee_guard,
    create_leave_request_effect, create_leave_request_guard, create_leave_type_effect,
    create_leave_type_guard, dangling, lemma_cancel_wf, lemma_create_employee_wf,
    lemma_create_leave_request_wf, lemma_create_leave_type_wf, lemma_with_debit_wf, lemma_with_status_wf,
    new_employee, new_leave_request, reject_guard, resolved_email, reject_step, with_debit, LedgerState,
};
use crate::stable::MAX_RECORD_SIZE;
use vstd::prelude::*;
use vstd::utf8::encode_utf8;

verus! {

/// A new employee has a balance for every leave category and for nothing else,
/// and each of these balances is the starting allowance of 20 days.
pub proof fn law_new_employee_balances(
    id: u64,
    name: Seq<char>,
    email: Seq<char>,
    now: u64,
    category: LeaveName,
)
    ensures
        new_employee(id, name, email, now).balances@.dom() == Set::<LeaveName>::full(),
        new_employee(id, name, email, now).balances@[category] == STARTING_BALANCE,
        STARTING_BALANCE == 20,
{
    assert(new_employee(id, name, email, now).balances@.dom() =~= Set::<LeaveName>::full());
}

/// When a registration succeeds: exactly when the name is not empty, the record
/// of the employee, with the address it is registered with, is within the record
/// bound, and an identifier is left.
pub proof fn law_create_employee_owed(s: LedgerState, name: Seq<char>, email: Seq<char>)
    ensures
        create_employee_guard(s, name, email) is None <==> {
            &&& name.len() > 0
            &&& EMPLOYEE_HEADER + encode_utf8(name).len() + encode_utf8(
                resolved_email(name, email),
            ).len() <= MAX_RECORD_SIZE
            &&& s.last_id < u64::MAX
        },
{
    lemma_employee_size(new_employee(0, name, email, 0));
}

/// When a request is filed: exactly when the reason is not empty, the employee
/// and the policy exist, the record is within the record bound, and an identifier
/// is left. The dates are not looked at.
pub proof fn law_create_leave_request_owed(s: LedgerState, draft: LeaveRequestPayloadView)
    ensures
        create_leave_request_guard(s, draft) is None <==> {
            &&& draft.reason.len() > 0
            &&& s.employees.contains_key(draft.employee_id)
            &&& s.leave_types.contains_key(draft.leave_type_id)
            &&& LEAVE_REQUEST_HEADER + encode_utf8(draft.reason).len() <= MAX_RECORD_SIZE
            &&& s.last_id < u64::MAX
        },
{
    lemma_leave_request_size(new_leave_request(0, draft, 0));
}

/// When a policy is added: whenever an identifier is left.
pub proof fn law_create_leave_type_owed(s: LedgerState)
    ensures
        create_leave_type_guard(s) is None <==> s.last_id < u64::MAX,
{
}

/// Registering an employee stores the new employee under the identifier just
/// issued and leaves every other record as it was.
pub proof fn law_created_employee_is_stored(
    s: LedgerState,
    name: Seq<char>,
    email: Seq<char>,
    now: u64,
    other: u64,
)
    requires
        s.wf(),
        create_employee_guard(s, name, email) is None,
    ensures
        ({
            let after = create_employee_effect(s, name, email, now);
            &&& after.last_id == s.last_id + 1
            &&& !s.employees.contains_key(after.last_id)
            &&& after.employees.contains_key(after.last_id)
            &&& after.employees[after.last_id] == new_employee(after.last_id, name, email, now)
            &&& other != after.last_id ==> after.employees.contains_key(other)
                == s.employees.contains_key(other)
            &&& s.employees.contains_key(other) ==> after.employees[other] == s.employees[other]
            &&& after.leave_types == s.leave_types
            &&& after.leave_requests == s.leave_requests
        }),
{
    let id = (s.last_id + 1) as u64;
    if s.employees.contains_key(id) {
        assert(id <= s.last_id);
    }
}

/// Approval takes the quota from the employee's balance for the category of the
/// request's policy, and accrual of the approved request takes it once more; each
/// debit stops at zero.
pub proof fn law_approve_then_accrue(s: LedgerState, request_id: u64)
    requires
        s.wf(),
        approve_guard(s, request_id) is None,
    ensures
        ({
            let quota = s.leave_types[s.leave_requests[request_id].leave_type_id].quota;
            let approved = approve_step(s, request_id);
            let accrued = accrue_step(approved, request_id);
            &&& approve_result(s, request_id) == Ok::<LeaveStatusEnum, Fault>(
                LeaveStatusEnum::Approved,
            )
            &&& approved.leave_requests[request_id].status == LeaveStatusEnum::Approved
            &&& approved.balance_for(request_id) == debited(s.balance_for(request_id), quota)
            &&& accrue_result(approved, request_id) == Ok::<LeaveStatusEnum, Fault>(
                LeaveStatusEnum::Accrued,
            )
            &&& accrued.leave_requests[request_id].status == LeaveStatusEnum::Accrued
            &&& accrued.balance_for(request_id) == debited(
                debited(s.balance_for(request_id), quota),
                quota,
            )
            &&& 0 <= accrued.balance_for(request_id) <= s.balance_for(request_id)
        }),
{
    lemma_with_debit_wf(s, request_id);
    lemma_with_status_wf(with_debit(s, request_id), request_id, LeaveStatusEnum::Approved);
}

/// A debit changes one balance of one employee: every other category of that
/// employee and every other employee keep what they had.
pub proof fn law_debit_is_local(s: LedgerState, request_id: u64, employee_id: u64, category: LeaveName)
    requires
        s.wf(),
        approve_guard(s, request_id) is None,
        s.employees.contains_key(employee_id),
    ensures
        ({
            let request = s.leave_requests[request_id];
            let policy = s.leave_types[request.leave_type_id];
            let approved = approve_step(s, request_id);
            &&& approved.employees.contains_key(employee_id)
            &&& (employee_id != request.employee_id || category != policy.name)
                ==> approved.employees[employee_id].balances.remaining_spec(category)
                == s.employees[employee_id].balances.remaining_spec(category)
            &&& approved.leave_types == s.leave_types
            &&& approved.last_id == s.last_id
        }),
{
}

/// A canceled request is gone: it is not in the store and no listing of the
/// requests shows its identifier.
pub proof fn law_cancel_unlists(s: LedgerState, request_id: u64, i: int)
    requires
        s.wf(),
        cancel_guard(s, request_id) is None,
        0 <= i < listing(cancel_step(s, request_id).leave_requests, every()).len(),
    ensures
        cancel_result(s, request_id) == Ok::<LeaveStatusEnum, Fault>(LeaveStatusEnum::Canceled),
        !cancel_step(s, request_id).leave_requests.contains_key(request_id),
        listing(cancel_step(s, request_id).leave_requests, every())[i].id != request_id,
        cancel_step(s, request_id).employees == s.employees,
        cancel_step(s, request_id).leave_types == s.leave_types,
{
    let after = cancel_step(s, request_id);
    lemma_cancel_wf(s, request_id);
    lemma_ascending(after.leave_requests, every(), key_space());
    let id = listing_ids(after.leave_requests, every())[i];
    assert(after.leave_requests.contains_key(id));
}

/// Canceling an approved request is a conflict and changes nothing: neither the
/// status of the request nor any balance.
pub proof fn law_cancel_approved_conflicts(s: LedgerState, request_id: u64)
    requires
        s.leave_requests.contains_key(request_id),
        s.leave_requests[request_id].status == LeaveStatusEnum::Approved,
    ensures
        cancel_result(s, request_id) == Err::<LeaveStatusEnum, Fault>(Fault::CannotCancelApproved),
        Fault::CannotCancelApproved.kind_spec() == FaultKind::Conflict,
        cancel_step(s, request_id) == s,
{
}

/// Approving a request that is approved already is a conflict and changes nothing,
/// so that approving twice debits the balance once.
pub proof fn law_approve_twice(s: LedgerState, request_id: u64)
    requires
        s.wf(),
        approve_guard(s, request_id) is None,
    ensures
        ({
            let quota = s.leave_types[s.leave_requests[request_id].leave_type_id].quota;
            let once = approve_step(s, request_id);
            let twice = approve_step(once, request_id);
            &&& approve_result(once, request_id) == Err::<LeaveStatusEnum, Fault>(
                Fault::AlreadyApproved,
            )
            &&& Fault::AlreadyApproved.kind_spec() == FaultKind::Conflict
            &&& twice == once
            &&& twice.balance_for(request_id) == debited(s.balance_for(request_id), quota)
        }),
{
}

/// Every transition on a request that does not exist fails as not found and
/// changes nothing.
pub proof fn law_unknown_request(s: LedgerState, request_id: u64)
    requires
        !s.leave_requests.contains_key(request_id),
    ensures
        approve_guard(s, request_id) == Some(Fault::LeaveRequestNotFound),
        reject_guard(s, request_id) == Some(Fault::LeaveRequestNotFound),
        accrue_guard(s, request_id) == Some(Fault::LeaveRequestNotFound),
        cancel_guard(s, request_id) == Some(Fault::LeaveRequestNotFound),
        Fault::LeaveRequestNotFound.kind_spec() == FaultKind::NotFound,
        approve_step(s, request_id) == s,
        reject_step(s, request_id) == s,
        accrue_step(s, request_id) == s,
        cancel_step(s, request_id) == s,
{
}

/// The transition graph: a request can be approved unless it is approved,
/// rejected unless it is rejected, accrued only when it is approved, and canceled
/// unless it is approved. What passes leaves the request in the status that the
/// transition is named after, or, for a cancellation, takes it out of the store;
/// nothing but the status of the request changes among the requests.
pub proof fn law_transition_graph(s: LedgerState, request_id: u64)
    requires
        s.wf(),
        s.leave_requests.contains_key(request_id),
        dangling(s, request_id) is None,
    ensures
        ({
            let status = s.leave_requests[request_id].status;
            &&& approve_guard(s, request_id) is None <==> status != LeaveStatusEnum::Approved
            &&& reject_guard(s, request_id) is None <==> status != LeaveStatusEnum::Rejected
            &&& accrue_guard(s, request_id) is None <==> status == LeaveStatusEnum::Approved
            &&& cancel_guard(s, request_id) is None <==> status != LeaveStatusEnum::Approved
            &&& approve_guard(s, request_id) is None ==> approve_step(
                s,
                request_id,
            ).leave_requests[request_id] == (LeaveRequestView {
                status: LeaveStatusEnum::Approved,
                ..s.leave_requests[request_id]
            })
            &&& reject_guard(s, request_id) is None ==> reject_step(
                s,
                request_id,
            ).leave_requests[request_id] == (LeaveRequestView {
                status: LeaveStatusEnum::Rejected,
                ..s.leave_requests[request_id]
            })
            &&& accrue_guard(s, request_id) is None ==> accrue_step(
                s,
                request_id,
            ).leave_requests[request_id] == (LeaveRequestView {
                status: LeaveStatusEnum::Accrued,
                ..s.leave_requests[request_id]
            })
            &&& cancel_guard(s, request_id) is None ==> !cancel_step(
                s,
                request_id,
            ).leave_requests.contains_key(request_id)
            &&& reject_step(s, request_id).employees == s.employees
            &&& cancel_step(s, request_id).employees == s.employees
        }),
{
}

/// Every transition keeps the ledger well formed and the counter where it was.
pub proof fn law_transitions_keep_wf(s: LedgerState, request_id: u64)
    requires
        s.wf(),
    ensures
        approve_step(s, request_id).wf(),
        reject_step(s, request_id).wf(),
        accrue_step(s, request_id).wf(),
        cancel_step(s, request_id).wf(),
        approve_step(s, request_id).last_id == s.last_id,
        reject_step(s, request_id).last_id == s.last_id,
        accrue_step(s, request_id).last_id == s.last_id,
        cancel_step(s, request_id).last_id == s.last_id,
{
    if approve_guard(s, request_id) is None {
        lemma_with_debit_wf(s, request_id);
        lemma_with_status_wf(with_debit(s, request_id), request_id, LeaveStatusEnum::Approved);
    }
    if accrue_guard(s, request_id) is None {
        lemma_with_debit_wf(s, request_id);
        lemma_with_status_wf(with_debit(s, request_id), request_id, LeaveStatusEnum::Accrued);
    }
    if reject_guard(s, request_id) is None {
        lemma_with_status_wf(s, request_id, LeaveStatusEnum::Rejected);
    }
    lemma_cancel_wf(s, request_id);
}

/// Whether the step from `before` to `after` issued `id`: the identifier after
/// the last one, which then is the last one.
pub open spec fn issues(before: LedgerState, after: LedgerState, id: u64) -> bool {
    &&& before.last_id < u64::MAX
    &&& id == before.last_id + 1
    &&& after.last_id == id
}

/// Every creation, of whatever kind of record, issues the identifier that it
/// gives to the new record, and that identifier is in use nowhere before.
pub proof fn law_creations_issue(
    s: LedgerState,
    name: Seq<char>,
    email: Seq<char>,
    category: LeaveName,
    quota: u32,
    carryover_allowed: bool,
    draft: LeaveRequestPayloadView,
    now: u64,
)
    requires
        s.wf(),
    ensures
        ({
            let id = (s.last_id + 1) as u64;
            &&& create_employee_guard(s, name, email) is None ==> issues(
                s,
                create_employee_effect(s, name, email, now),
                id,
            ) && create_employee_effect(s, name, email, now).employees[id].id == id
            &&& create_leave_type_guard(s) is None ==> issues(
                s,
                create_leave_type_effect(s, category, quota, carryover_allowed, now),
                id,
            ) && create_leave_type_effect(
                s,
                category,
                quota,
                carryover_allowed,
                now,
            ).leave_types[id].id == id
            &&& create_leave_request_guard(s, draft) is None ==> issues(
                s,
                create_leave_request_effect(s, draft, now),
                id,
            ) && create_leave_request_effect(s, draft, now).leave_requests[id].id == id
            &&& s.last_id < u64::MAX ==> !s.employees.contains_key(id)
                && !s.leave_types.contains_key(id) && !s.leave_requests.contains_key(id)
        }),
{
    let id = (s.last_id + 1) as u64;
    if s.last_id < u64::MAX {
        if s.employees.contains_key(id) {
            assert(id <= s.last_id);
        }
        if s.leave_types.contains_key(id) {
            assert(id <= s.last_id);
        }
        if s.leave_requests.contains_key(id) {
            assert(id <= s.last_id);
        }
    }
}

/// Over any run of steps, each of which either issues an identifier or leaves the
/// counter where it was, the identifiers issued are strictly increasing: none is
/// issued twice. `issued[i]` is what the step from `states[i]` to `states[i + 1]`
/// issued, if anything.
pub proof fn law_identifiers_increase(
    states: Seq<LedgerState>,
    issued: Seq<Option<u64>>,
    first: int,
    second: int,
)
    requires
        states.len() == issued.len() + 1,
        forall|i: int|
            0 <= i < issued.len() ==> match #[trigger] issued[i] {
                Some(id) => issues(states[i], states[i + 1], id),
                None => states[i + 1].last_id == states[i].last_id,
            },
        0 <= first < second < issued.len(),
        issued[first] is Some,
        issued[second] is Some,
    ensures
        issued[first]->Some_0 < issued[second]->Some_0,
{
    lemma_counter_never_falls(states, issued, first + 1, second);
}

proof fn lemma_counter_never_falls(
    states: Seq<LedgerState>,
    issued: Seq<Option<u64>>,
    from: int,
    to: int,
)
    requires
        states.len() == issued.len() + 1,
        forall|i: int|
            0 <= i < issued.len() ==> match #[trigger] issued[i] {
                Some(id) => issues(states[i], states[i + 1], id),
                None => states[i + 1].last_id == states[i].last_id,
            },
        0 <= from <= to < states.len(),
    ensures
        states[from].last_id <= states[to].last_id,
    decreases to - from,
{
    if from < to {
        lemma_counter_never_falls(states, issued, from, to - 1);
        let step = issued[to - 1];
    }
}

/// Whether `after` is what one operation of the ledger, successful or not, makes
/// of `before`.
pub open spec fn moves(before: LedgerState, after: LedgerState) -> bool {
    ||| after == before
    ||| before.last_id < u64::MAX && after == after_issue(before)
    ||| exists|name: Seq<char>, email: Seq<char>, now: u64|
        create_employee_guard(before, name, email) is None && after
            == #[trigger] create_employee_effect(before, name, email, now)
    ||| exists|category: LeaveName, quota: u32, carryover_allowed: bool, now: u64|
        create_leave_type_guard(before) is None && after == #[trigger] create_leave_type_effect(
            before,
            category,
            quota,
            carryover_allowed,
            now,
        )
    ||| exists|draft: LeaveRequestPayloadView, now: u64|
        create_leave_request_guard(before, draft) is None && after
            == #[trigger] create_leave_request_effect(before, draft, now)
    ||| exists|request_id: u64| after == #[trigger] approve_step(before, request_id)
    ||| exists|request_id: u64| after == #[trigger] reject_step(before, request_id)
    ||| exists|request_id: u64| after == #[trigger] accrue_step(before, request_id)
    ||| exists|request_id: u64| after == #[trigger] cancel_step(before, request_id)
}

/// No operation lowers the counter or makes a well-formed ledger ill formed.
pub proof fn law_moves_keep_order(before: LedgerState, after: LedgerState)
    requires
        before.wf(),
        moves(before, after),
    ensures
        after.wf(),
        after.last_id >= before.last_id,
{
    if exists|request_id: u64| after == #[trigger] approve_step(before, request_id) {
        let request_id = choose|request_id: u64| after == #[trigger] approve_step(before, request_id);
        law_transitions_keep_wf(before, request_id);
    } else if exists|request_id: u64| after == #[trigger] reject_step(before, request_id) {
        let request_id = choose|request_id: u64| after == #[trigger] reject_step(before, request_id);
        law_transitions_keep_wf(before, request_id);
    } else if exists|request_id: u64| after == #[trigger] accrue_step(before, request_id) {
        let request_id = choose|request_id: u64| after == #[trigger] accrue_step(before, request_id);
        law_transitions_keep_wf(before, request_id);
    } else if exists|request_id: u64| after == #[trigger] cancel_step(before, request_id) {
        let request_id = choose|request_id: u64| after == #[trigger] cancel_step(before, request_id);
        law_transitions_keep_wf(before, request_id);
    } else if exists|name: Seq<char>, email: Seq<char>, now: u64|
        create_employee_guard(before, name, email) is None && after
            == #[trigger] create_employee_effect(before, name, email, now) {
        let (name, email, now) = choose|name: Seq<char>, email: Seq<char>, now: u64|
            create_employee_guard(before, name, email) is None && after
                == #[trigger] create_employee_effect(before, name, email, now);
        lemma_create_employee_wf(before, name, email, now);
    } else if exists|category: LeaveName, quota: u32, carryover_allowed: bool, now: u64|
        create_leave_type_guard(before) is None && after == #[trigger] create_leave_type_effect(
            before,
            category,
            quota,
            carryover_allowed,
            now,
        ) {
        let (category, quota, carryover_allowed, now) = choose|
            category: LeaveName,
            quota: u32,
            carryover_allowed: bool,
            now: u64,
        |
            create_leave_type_guard(before) is None && after
                == #[trigger] create_leave_type_effect(
                before,
                category,
                quota,
                carryover_allowed,
                now,
            );
        lemma_create_leave_type_wf(before, category, quota, carryover_allowed, now);
    } else if exists|draft: LeaveRequestPayloadView, now: u64|
        create_leave_request_guard(before, draft) is None && after
            == #[trigger] create_leave_request_effect(before, draft, now) {
        let (draft, now) = choose|draft: LeaveRequestPayloadView, now: u64|
            create_leave_request_guard(before, draft) is None && after
                == #[trigger] create_leave_request_effect(before, draft, now);
        lemma_create_leave_request_wf(before, draft, now);
    }
}

/// Over any run of operations, of whatever kinds, the counter does not fall.
pub proof fn law_runs_keep_order(states: Seq<LedgerState>, from: int, to: int)
    requires
        states.len() > 0,
        states[0].wf(),
        forall|i: int| 0 <= i < states.len() - 1 ==> moves(#[trigger] states[i], states[i + 1]),
        0 <= from <= to < states.len(),
    ensures
        states[to].wf(),
        states[from].last_id <= states[to].last_id,
    decreases to,
{
    if to > 0 {
        if from < to {
            law_runs_keep_order(states, from, to - 1);
        } else {
            law_runs_keep_order(states, to - 1, to - 1);
        }
        assert(moves(states[to - 1], states[to - 1 + 1]));
        law_moves_keep_order(states[to - 1], states[to]);
    }
}

/// Two identifiers issued in one run, with any operations in between, are at least
/// 1 and the later one is the greater: `first` is issued by the step from state
/// `from` and `second` by the step from state `to`.
pub proof fn law_issued_identifiers_rise(
    states: Seq<LedgerState>,
    from: int,
    to: int,
    first: u64,
    second: u64,
)
    requires
        states.len() > 0,
        states[0].wf(),
        forall|i: int| 0 <= i < states.len() - 1 ==> moves(#[trigger] states[i], states[i + 1]),
        0 <= from < to < states.len() - 1,
        issues(states[from], states[from + 1], first),
        issues(states[to], states[to + 1], second),
    ensures
        1 <= first < second,
{
    law_runs_keep_order(states, from + 1, to);
}

} // verus!
