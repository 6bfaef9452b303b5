use leave_management::codec::Record;
use leave_management::fault::Fault;
use leave_management::listing::Everything;
use leave_management::model::{
    Balances, Employee, EmployeePayload, LeaveName, LeaveRequest, LeaveRequestPayload,
    LeaveStatusEnum, LeaveType,
};
use leave_management::stable::{LedgerMemory, MAX_RECORD_SIZE, NO_SLOT};
use leave_management::store::EntityStore;
use leave_management::system::{
    approve_leave_request, create_employee, create_leave_request, create_leave_type,
    generate_leave_report, get_employee_by_id, get_employees, get_leave_requests,
    get_leave_types, increment_id_counter, FiledBy, LeaveSystem, COUNTER_SLOT, EMPLOYEE_SLOT,
    LEAVE_REQUEST_SLOT, LEAVE_TYPE_SLOT,
};

/// The memory of a ledger that has issued `count` identifiers and holds nothing.
fn issued(count: u64) -> LedgerMemory {
    let mut ctx = LeaveSystem::open(LedgerMemory::new()).unwrap();
    for id in 1..=count {
        assert_eq!(increment_id_counter(&mut ctx), Ok(id));
    }
    ctx.close()
}

/// The memory after `record` was put under `key` into the store of `slot`.
fn planted<T: Record>(memory: LedgerMemory, slot: u8, key: u64, record: &T) -> LedgerMemory {
    let mut store: EntityStore<T> = EntityStore::open_at(memory, slot).unwrap();
    assert!(store.put(key, record));
    store.close()
}

fn staff(name: &str) -> EmployeePayload {
    EmployeePayload { name: name.to_string(), email: String::new() }
}

fn policy(id: u64, quota: u32) -> LeaveType {
    LeaveType { id, name: LeaveName::Sick, quota, carryover_allowed: false, created_at: 5 }
}

fn leave(id: u64, employee_id: u64, reason: &str) -> LeaveRequest {
    LeaveRequest {
        id,
        employee_id,
        leave_type_id: 2,
        start_date: 1,
        end_date: 2,
        status: LeaveStatusEnum::Pending,
        reason: reason.to_string(),
        created_at: 3,
    }
}

#[test]
fn record_bound_is_1024() {
    assert_eq!(MAX_RECORD_SIZE, 1024);
    assert_eq!(NO_SLOT, 255);
    assert_eq!((COUNTER_SLOT, EMPLOYEE_SLOT, LEAVE_REQUEST_SLOT, LEAVE_TYPE_SLOT), (0, 1, 2, 3));
}

#[test]
fn new_memory_is_blank() {
    assert!(LedgerMemory::new().is_blank());
}

#[test]
fn memory_of_a_ledger_is_not_blank() {
    let ctx = LeaveSystem::open(LedgerMemory::new()).unwrap();
    assert!(!ctx.close().is_blank());
    let store: EntityStore<LeaveType> = EntityStore::open_at(LedgerMemory::new(), 254).unwrap();
    assert!(!store.close().is_blank());
}

#[test]
fn blank_memory_opens_as_an_empty_ledger() {
    let mut ctx = LeaveSystem::open(LedgerMemory::new()).unwrap();
    assert_eq!(ctx.last_id(), 0);
    assert_eq!(get_employees(&ctx), Err(Fault::NoEmployees));
    assert_eq!(get_leave_types(&ctx), Err(Fault::NoLeaveTypes));
    assert_eq!(get_leave_requests(&ctx), Err(Fault::NoLeaveRequests));
    assert_eq!(increment_id_counter(&mut ctx), Ok(1));
}

#[test]
fn ledger_survives_a_restart() {
    let mut ctx = LeaveSystem::open(LedgerMemory::new()).unwrap();
    let employee = create_employee(&mut ctx, staff("Ada Lovelace"), 1).unwrap();
    let kind = create_leave_type(&mut ctx, LeaveName::Annual, 8, true, 2).unwrap();
    let request = create_leave_request(
        &mut ctx,
        LeaveRequestPayload {
            employee_id: employee.id,
            leave_type_id: kind.id,
            start_date: 10,
            end_date: 20,
            reason: "sailing".to_string(),
        },
        3,
    )
    .unwrap();
    approve_leave_request(&mut ctx, request.id).unwrap();
    let mut ctx = LeaveSystem::open(ctx.close()).unwrap();
    assert_eq!(ctx.last_id(), 3);
    let stored = get_employee_by_id(&ctx, employee.id).unwrap();
    assert_eq!(stored.balances.annual, 12);
    assert_eq!(stored.name, employee.name);
    assert_eq!(stored.email, "ada.lovelace@company.com");
    assert_eq!(get_leave_types(&ctx), Ok(vec![kind]));
    let requests = get_leave_requests(&ctx).unwrap();
    assert_eq!(requests.len(), 1);
    assert_eq!(requests[0].status, LeaveStatusEnum::Approved);
    assert_eq!(requests[0].reason, request.reason);
    // identifiers go on where they stopped
    assert_eq!(create_employee(&mut ctx, staff("Bob"), 4).unwrap().id, 4);
}

#[test]
fn identifiers_are_not_reused_after_a_restart() {
    let mut ctx = LeaveSystem::open(issued(2)).unwrap();
    assert_eq!(ctx.last_id(), 2);
    assert_eq!(increment_id_counter(&mut ctx), Ok(3));
    let mut ctx = LeaveSystem::open(ctx.close()).unwrap();
    assert_eq!(increment_id_counter(&mut ctx), Ok(4));
}

#[test]
fn open_refuses_bytes_that_are_no_record() {
    // a policy where an employee should be
    let memory = planted(issued(10), EMPLOYEE_SLOT, 1, &policy(1, 1));
    assert!(LeaveSystem::open(memory).is_none());
    // a request where a policy should be
    let memory = planted(issued(10), LEAVE_TYPE_SLOT, 1, &leave(1, 1, "rest"));
    assert!(LeaveSystem::open(memory).is_none());
    // a policy where a request should be
    let memory = planted(issued(10), LEAVE_REQUEST_SLOT, 1, &policy(1, 1));
    assert!(LeaveSystem::open(memory).is_none());
}

#[test]
fn open_refuses_a_record_under_a_foreign_key() {
    let memory = planted(issued(10), LEAVE_TYPE_SLOT, 4, &policy(5, 1));
    assert!(LeaveSystem::open(memory).is_none());
}

#[test]
fn open_refuses_an_identifier_beyond_the_counter() {
    let memory = planted(issued(4), LEAVE_TYPE_SLOT, 5, &policy(5, 1));
    assert!(LeaveSystem::open(memory).is_none());
    let memory = planted(issued(5), LEAVE_TYPE_SLOT, 5, &policy(5, 1));
    let ctx = LeaveSystem::open(memory).unwrap();
    assert_eq!(get_leave_types(&ctx), Ok(vec![policy(5, 1)]));
}

#[test]
fn a_request_whose_employee_or_policy_is_gone_is_not_found() {
    let memory = planted(issued(9), LEAVE_REQUEST_SLOT, 3, &leave(3, 1, "rest"));
    let mut ctx = LeaveSystem::open(memory).unwrap();
    assert_eq!(approve_leave_request(&mut ctx, 3), Err(Fault::EmployeeNotFound));
    assert_eq!(generate_leave_report(&ctx, 1), Err(Fault::EmployeeNotFound));
    assert_eq!(get_leave_requests(&ctx).unwrap()[0].status, LeaveStatusEnum::Pending);
    let ada = Employee {
        id: 1,
        name: "Ada".to_string(),
        email: "a@b".to_string(),
        balances: Balances::initial(),
        created_at: 0,
    };
    let memory = planted(ctx.close(), EMPLOYEE_SLOT, 1, &ada);
    let mut ctx = LeaveSystem::open(memory).unwrap();
    assert_eq!(approve_leave_request(&mut ctx, 3), Err(Fault::LeaveTypeNotFound));
    assert_eq!(generate_leave_report(&ctx, 1), Err(Fault::LeaveTypeNotFound));
    assert_eq!(get_employee_by_id(&ctx, 1), Ok(ada));
    assert_eq!(get_leave_requests(&ctx).unwrap()[0].status, LeaveStatusEnum::Pending);
}

#[test]
fn open_refuses_a_counter_slot_that_holds_a_map() {
    let memory = planted(LedgerMemory::new(), COUNTER_SLOT, 1, &policy(1, 1));
    assert!(LeaveSystem::open(memory).is_none());
}

#[test]
fn store_refuses_a_slot_that_holds_a_counter() {
    let memory = issued(3);
    assert!(EntityStore::<LeaveType>::open_at(memory, COUNTER_SLOT).is_none());
    assert!(EntityStore::<LeaveType>::open_alone(issued(3)).is_none());
    // the other slots of a ledger hold its stores
    let store: EntityStore<LeaveType> = EntityStore::open_at(issued(3), LEAVE_TYPE_SLOT).unwrap();
    assert_eq!(store.ids(), Vec::<u64>::new());
}

#[test]
fn a_refused_open_leaves_the_records_as_they_were() {
    let memory = planted(issued(4), LEAVE_TYPE_SLOT, 5, &policy(5, 1));
    let store: EntityStore<LeaveType> = EntityStore::open_at(memory, LEAVE_TYPE_SLOT).unwrap();
    assert_eq!(store.list(), vec![policy(5, 1)]);
}

#[test]
fn store_opens_in_any_slot_but_255() {
    assert!(EntityStore::<LeaveType>::open_at(LedgerMemory::new(), NO_SLOT).is_none());
    let mut store: EntityStore<LeaveType> = EntityStore::open_at(LedgerMemory::new(), 254).unwrap();
    assert!(store.put(1, &policy(1, 2)));
    let memory = store.close();
    // another slot of the same memory holds nothing
    let other: EntityStore<LeaveType> = EntityStore::open_at(memory, 7).unwrap();
    assert_eq!(other.ids(), Vec::<u64>::new());
    let back: EntityStore<LeaveType> = EntityStore::open_at(other.close(), 254).unwrap();
    assert_eq!(back.list(), vec![policy(1, 2)]);
}

#[test]
fn store_returns_what_was_put() {
    let mut store: EntityStore<LeaveType> =
        EntityStore::open_alone(LedgerMemory::new()).unwrap();
    assert_eq!(store.get(7), None);
    assert!(!store.contains(7));
    assert!(store.put(7, &policy(7, 3)));
    assert_eq!(store.get(7), Some(policy(7, 3)));
    assert!(store.contains(7));
    assert_eq!(store.get(8), None);
    // a second put under the same identifier replaces the first
    assert!(store.put(7, &policy(7, 4)));
    assert_eq!(store.get(7), Some(policy(7, 4)));
    assert_eq!(store.ids(), vec![7]);
}

#[test]
fn store_returns_texts_as_put() {
    let mut store: EntityStore<LeaveRequest> =
        EntityStore::open_alone(LedgerMemory::new()).unwrap();
    let written = leave(1, 2, "Zoë's wedding — 日本");
    assert!(store.put(1, &written));
    assert_eq!(store.get(1), Some(written));
}

#[test]
fn store_refuses_a_record_beyond_the_bound() {
    let mut store: EntityStore<LeaveRequest> =
        EntityStore::open_alone(LedgerMemory::new()).unwrap();
    assert!(store.put(1, &leave(1, 2, "short")));
    assert!(!store.put(1, &leave(1, 2, &"r".repeat(976))));
    assert_eq!(store.get(1), Some(leave(1, 2, "short")));
    assert!(!store.put(2, &leave(2, 2, &"r".repeat(976))));
    assert_eq!(store.ids(), vec![1]);
    assert!(store.put(2, &leave(2, 2, &"r".repeat(975))));
    assert_eq!(store.get(2).unwrap().reason.len(), 975);
}

#[test]
fn store_lists_by_ascending_identifier() {
    let mut store: EntityStore<LeaveType> =
        EntityStore::open_alone(LedgerMemory::new()).unwrap();
    assert_eq!(store.list(), Vec::new());
    assert_eq!(store.ids(), Vec::<u64>::new());
    for id in [300u64, 2, u64::MAX, 0, 70000, 256] {
        assert!(store.put(id, &policy(id, id as u32)));
    }
    assert_eq!(store.ids(), vec![0, 2, 256, 300, 70000, u64::MAX]);
    let rows = store.list();
    assert_eq!(rows.iter().map(|t| t.id).collect::<Vec<u64>>(), store.ids());
    assert_eq!(store.select(&Everything), rows);
    assert!(store.keyed_within(u64::MAX));
    assert!(!store.keyed_within(u64::MAX - 1));
}

#[test]
fn store_delete_removes_one_record() {
    let mut store: EntityStore<LeaveType> =
        EntityStore::open_alone(LedgerMemory::new()).unwrap();
    for id in 1..=40u64 {
        assert!(store.put(id, &policy(id, 1)));
    }
    store.delete(17);
    store.delete(99);
    assert_eq!(store.get(17), None);
    assert_eq!(store.get(16), Some(policy(16, 1)));
    let expected: Vec<u64> = (1..=40).filter(|id| *id != 17).collect();
    assert_eq!(store.ids(), expected);
    assert_eq!(store.list().len(), 39);
}

#[test]
fn store_selects_by_criterion() {
    let mut store: EntityStore<LeaveRequest> =
        EntityStore::open_alone(LedgerMemory::new()).unwrap();
    for id in 1..=9u64 {
        assert!(store.put(id, &leave(id, id % 3, "x")));
    }
    let rows = store.select(&FiledBy { employee_id: 1 });
    assert_eq!(rows.iter().map(|r| r.id).collect::<Vec<u64>>(), vec![1, 4, 7]);
    assert_eq!(store.select(&FiledBy { employee_id: 5 }), Vec::new());
}

#[test]
fn store_tells_a_record_under_a_foreign_key() {
    let mut store: EntityStore<LeaveType> =
        EntityStore::open_alone(LedgerMemory::new()).unwrap();
    assert!(store.keyed_within(0));
    assert!(store.put(3, &policy(3, 1)));
    assert!(store.keyed_within(3));
    assert!(!store.keyed_within(2));
    assert!(store.put(4, &policy(5, 1)));
    assert!(!store.keyed_within(10));
}

#[test]
fn store_survives_a_restart() {
    let mut store: EntityStore<LeaveType> = EntityStore::open_alone(LedgerMemory::new()).unwrap();
    assert!(store.put(1, &policy(1, 5)));
    assert!(store.put(2, &policy(2, 6)));
    store.delete(1);
    let store: EntityStore<LeaveType> = EntityStore::open_alone(store.close()).unwrap();
    assert_eq!(store.list(), vec![policy(2, 6)]);
    // the bytes of a policy are no leave request
    assert!(EntityStore::<LeaveRequest>::open_alone(store.close()).is_none());
}
