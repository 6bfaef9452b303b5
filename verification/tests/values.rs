use ic_stable_structures::cell::ValueError;
use leave_management::codec::{employee_fits, leave_request_fits, text_size, Record};
use leave_management::fault::{Fault, FaultKind};
use leave_management::listing::{Criterion, Everything};
use leave_management::model::{
    Balances, Employee, LeaveName, LeaveRequest, LeaveStatusEnum, LeaveType,
};
use leave_management::report::{render_entry, render_header, render_summary, Tally};
use leave_management::system::{allocation_outcome, FiledBy, FoldedQuery};
use leave_management::text::{
    decimal, email_from_folded, folded_match, generate_email, text_matches,
};

const NAMES: [LeaveName; 5] = [
    LeaveName::Annual,
    LeaveName::Sick,
    LeaveName::Maternity,
    LeaveName::Paternity,
    LeaveName::Unpaid,
];

const STATES: [LeaveStatusEnum; 5] = [
    LeaveStatusEnum::Pending,
    LeaveStatusEnum::Approved,
    LeaveStatusEnum::Rejected,
    LeaveStatusEnum::Accrued,
    LeaveStatusEnum::Canceled,
];

fn ada() -> Employee {
    Employee {
        id: 0x0102030405060708,
        name: "Ada".to_string(),
        email: "a@b".to_string(),
        balances: Balances { annual: 1, sick: 2, maternity: 3, paternity: 4, unpaid: 0x01020304 },
        created_at: 9,
    }
}

fn request() -> LeaveRequest {
    LeaveRequest {
        id: 3,
        employee_id: 1,
        leave_type_id: 2,
        start_date: 100,
        end_date: 105,
        status: LeaveStatusEnum::Rejected,
        reason: "zoë".to_string(),
        created_at: 12,
    }
}

#[test]
fn generate_email_lowers_and_dots() {
    assert_eq!(generate_email("John Doe"), "john.doe@company.com");
    assert_eq!(generate_email("Mary Ann Smith"), "mary.ann.smith@company.com");
    assert_eq!(generate_email("solo"), "solo@company.com");
    assert_eq!(generate_email(" A "), ".a.@company.com");
    assert_eq!(generate_email(""), "@company.com");
}

#[test]
fn email_from_folded_keeps_the_case_it_is_given() {
    assert_eq!(email_from_folded("a b c"), "a.b.c@company.com");
    assert_eq!(email_from_folded("A B"), "A.B@company.com");
    assert_eq!(email_from_folded("no-space"), "no-space@company.com");
    assert_eq!(email_from_folded("tab\there"), "tab\there@company.com");
}

#[test]
fn folded_match_is_a_plain_substring_test() {
    assert!(folded_match("ada lovelace", "ada@x.org", "love"));
    assert!(folded_match("ada lovelace", "ada@x.org", "@x"));
    assert!(folded_match("ada", "a@b", ""));
    assert!(!folded_match("ada lovelace", "ada@x.org", "LOVE"));
    assert!(!folded_match("ada", "a@b", "adaa"));
    assert!(!folded_match("ab", "cd", "bc"));
}

#[test]
fn text_matches_ignores_case() {
    assert!(text_matches("Ada Lovelace", "ADA@X.ORG", "love"));
    assert!(text_matches("Ada Lovelace", "ADA@X.ORG", "LoVe"));
    assert!(text_matches("Ada Lovelace", "ADA@X.ORG", "a@x"));
    assert!(text_matches("ÉMILE", "e@x", "émi"));
    assert!(!text_matches("Ada Lovelace", "ADA@X.ORG", "grace"));
}

#[test]
fn decimal_writes_numerals() {
    assert_eq!(decimal(0), "0");
    assert_eq!(decimal(7), "7");
    assert_eq!(decimal(9), "9");
    assert_eq!(decimal(10), "10");
    assert_eq!(decimal(12345), "12345");
    assert_eq!(decimal(1006), "1006");
    assert_eq!(decimal(u64::MAX as u128), "18446744073709551615");
    assert_eq!(decimal(u128::MAX), "340282366920938463463374607431768211455");
}

#[test]
fn labels_are_the_names_of_the_variants() {
    let labels: Vec<String> = NAMES.iter().map(|n| n.label()).collect();
    assert_eq!(labels, vec!["Annual", "Sick", "Maternity", "Paternity", "Unpaid"]);
    let labels: Vec<String> = STATES.iter().map(|s| s.label()).collect();
    assert_eq!(labels, vec!["Pending", "Approved", "Rejected", "Accrued", "Canceled"]);
}

#[test]
fn codes_count_the_variants() {
    for (i, name) in NAMES.iter().enumerate() {
        assert_eq!(name.code(), i as u8);
        assert_eq!(LeaveName::from_code(i as u8), Some(*name));
    }
    for (i, state) in STATES.iter().enumerate() {
        assert_eq!(state.code(), i as u8);
        assert_eq!(LeaveStatusEnum::from_code(i as u8), Some(*state));
    }
    assert_eq!(LeaveName::from_code(5), None);
    assert_eq!(LeaveName::from_code(255), None);
    assert_eq!(LeaveStatusEnum::from_code(5), None);
}

#[test]
fn balances_debit_saturates() {
    let b = Balances::initial();
    assert_eq!(b, Balances { annual: 20, sick: 20, maternity: 20, paternity: 20, unpaid: 20 });
    assert_eq!(b.debit(LeaveName::Sick, 0), b);
    assert_eq!(b.debit(LeaveName::Sick, 19).sick, 1);
    assert_eq!(b.debit(LeaveName::Sick, 20).sick, 0);
    assert_eq!(b.debit(LeaveName::Sick, 21).sick, 0);
    assert_eq!(b.debit(LeaveName::Sick, u32::MAX).sick, 0);
    for name in NAMES {
        let after = b.debit(name, 5);
        for other in NAMES {
            assert_eq!(after.remaining(other), if other == name { 15 } else { 20 });
        }
    }
}

#[test]
fn fault_kinds_and_messages() {
    let all = [
        (Fault::EmployeeNameRequired, FaultKind::InvalidPayload, "Employee name is required."),
        (Fault::ReasonRequired, FaultKind::InvalidPayload, "Ensure 'reason' is provided."),
        (Fault::NoEmployees, FaultKind::NotFound, "No employees found"),
        (Fault::NoMatchingEmployees, FaultKind::NotFound, "No matching employees found"),
        (Fault::NoLeaveTypes, FaultKind::NotFound, "No leave types found"),
        (Fault::NoLeaveRequests, FaultKind::NotFound, "No leave requests found"),
        (Fault::EmployeeNotFound, FaultKind::NotFound, "Employee not found"),
        (Fault::LeaveTypeNotFound, FaultKind::NotFound, "Leave type not found"),
        (Fault::LeaveRequestNotFound, FaultKind::NotFound, "Leave request not found"),
        (Fault::AlreadyApproved, FaultKind::Conflict, "Leave request is already approved."),
        (Fault::AlreadyRejected, FaultKind::Conflict, "Leave request is already rejected."),
        (
            Fault::NotApproved,
            FaultKind::Conflict,
            "Only an approved leave request can be accrued.",
        ),
        (
            Fault::CannotCancelApproved,
            FaultKind::Conflict,
            "Cannot cancel an approved leave request.",
        ),
        (Fault::RecordTooLarge, FaultKind::Storage, "Record exceeds the storage bound."),
        (Fault::IdentifiersExhausted, FaultKind::Storage, "No identifier is left."),
        (Fault::CounterNotPersisted, FaultKind::Storage, "Failed to set new ID."),
    ];
    for (fault, kind, message) in all {
        assert_eq!(fault.kind(), kind);
        assert_eq!(fault.message(), message);
    }
}

#[test]
fn allocation_outcome_follows_the_counter() {
    assert_eq!(allocation_outcome(5, Ok(4)), Ok(5));
    assert_eq!(allocation_outcome(1, Ok(0)), Ok(1));
    assert_eq!(
        allocation_outcome(5, Err(ValueError::ValueTooLarge { value_size: 8 })),
        Err(Fault::CounterNotPersisted)
    );
}

#[test]
fn text_size_counts_bytes() {
    assert_eq!(text_size(""), 0);
    assert_eq!(text_size("abc"), 3);
    assert_eq!(text_size("zoë"), 4);
    assert_eq!(text_size("日本"), 6);
}

#[test]
fn fits_at_the_bound() {
    assert!(employee_fits("", ""));
    assert!(employee_fits(&"a".repeat(984), ""));
    assert!(!employee_fits(&"a".repeat(985), ""));
    assert!(employee_fits(&"a".repeat(400), &"b".repeat(584)));
    assert!(!employee_fits(&"a".repeat(400), &"b".repeat(585)));
    assert!(!employee_fits("", &"b".repeat(2000)));
    assert!(leave_request_fits(&"r".repeat(975)));
    assert!(!leave_request_fits(&"r".repeat(976)));
    // two bytes each
    assert!(leave_request_fits(&"ë".repeat(487)));
    assert!(!leave_request_fits(&"ë".repeat(488)));
}

#[test]
fn leave_type_record_layout() {
    let policy = LeaveType {
        id: 0x0102030405060708,
        name: LeaveName::Paternity,
        quota: 0x0A0B0C0D,
        carryover_allowed: true,
        created_at: 2,
    };
    let bytes = policy.encode().unwrap();
    assert_eq!(
        bytes,
        vec![
            8, 7, 6, 5, 4, 3, 2, 1, // id
            2, 0, 0, 0, 0, 0, 0, 0, // created_at
            0x0D, 0x0C, 0x0B, 0x0A, // quota
            3,    // category
            1,    // carry-over
        ]
    );
    assert_eq!(LeaveType::decode(&bytes), Some(policy));
    assert_eq!(policy.id(), 0x0102030405060708);
}

#[test]
fn leave_type_decode_refuses_what_is_no_record() {
    let policy =
        LeaveType { id: 1, name: LeaveName::Annual, quota: 5, carryover_allowed: false, created_at: 2 };
    let bytes = policy.encode().unwrap();
    assert_eq!(LeaveType::decode(&bytes[..21].to_vec()), None);
    let mut long = bytes.clone();
    long.push(0);
    assert_eq!(LeaveType::decode(&long), None);
    let mut bad_name = bytes.clone();
    bad_name[20] = 5;
    assert_eq!(LeaveType::decode(&bad_name), None);
    let mut bad_flag = bytes.clone();
    bad_flag[21] = 2;
    assert_eq!(LeaveType::decode(&bad_flag), None);
    assert_eq!(LeaveType::decode(&Vec::new()), None);
}

#[test]
fn employee_record_layout() {
    let bytes = ada().encode().unwrap();
    let mut expected: Vec<u8> = vec![8, 7, 6, 5, 4, 3, 2, 1];
    expected.extend([9, 0, 0, 0, 0, 0, 0, 0]);
    expected.extend([1, 0, 0, 0, 2, 0, 0, 0, 3, 0, 0, 0, 4, 0, 0, 0, 4, 3, 2, 1]);
    expected.extend([3, 0, 0, 0]);
    expected.extend(b"Ada");
    expected.extend(b"a@b");
    assert_eq!(bytes, expected);
    assert_eq!(bytes.len(), 46);
    assert_eq!(Employee::decode(&bytes), Some(ada()));
    assert_eq!(ada().id(), 0x0102030405060708);
}

#[test]
fn employee_round_trip_with_wide_characters() {
    let e = Employee { name: "Zoë 日本".to_string(), email: String::new(), ..ada() };
    let bytes = e.encode().unwrap();
    assert_eq!(bytes.len(), 40 + 11);
    assert_eq!(Employee::decode(&bytes), Some(e));
}

#[test]
fn employee_decode_refuses_what_is_no_record() {
    let bytes = ada().encode().unwrap();
    assert_eq!(Employee::decode(&bytes[..39].to_vec()), None);
    // the name would reach beyond the record
    let mut long_name = bytes.clone();
    long_name[36] = 7;
    assert_eq!(Employee::decode(&long_name), None);
    // neither part is valid UTF-8
    let mut bad_name = bytes.clone();
    bad_name[40] = 0xFF;
    assert_eq!(Employee::decode(&bad_name), None);
    let mut bad_email = bytes.clone();
    bad_email[45] = 0xC3;
    assert_eq!(Employee::decode(&bad_email), None);
    // a name that ends inside a character
    let e = Employee { name: "ë".to_string(), email: "x".to_string(), ..ada() };
    let mut split = e.encode().unwrap();
    split[36] = 1;
    assert_eq!(Employee::decode(&split), None);
    // the header alone is an employee without name and address
    let bare = Employee { name: String::new(), email: String::new(), ..ada() };
    assert_eq!(Employee::decode(&bytes[..36].iter().copied().chain([0, 0, 0, 0]).collect()), Some(bare));
}

#[test]
fn employee_encode_refuses_what_does_not_fit() {
    let e = Employee { name: "n".repeat(984), email: String::new(), ..ada() };
    assert_eq!(e.encode().unwrap().len(), 1024);
    let e = Employee { name: "n".repeat(984), email: "e".to_string(), ..ada() };
    assert_eq!(e.encode(), None);
}

#[test]
fn leave_request_record_layout() {
    let bytes = request().encode().unwrap();
    let mut expected: Vec<u8> = Vec::new();
    for field in [3u64, 1, 2, 100, 105, 12] {
        expected.extend(field.to_le_bytes());
    }
    expected.push(2);
    expected.extend("zoë".as_bytes());
    assert_eq!(bytes, expected);
    assert_eq!(bytes.len(), 53);
    assert_eq!(LeaveRequest::decode(&bytes), Some(request()));
    assert_eq!(request().id(), 3);
}

#[test]
fn leave_request_decode_refuses_what_is_no_record() {
    let bytes = request().encode().unwrap();
    assert_eq!(LeaveRequest::decode(&bytes[..48].to_vec()), None);
    let mut bad_status = bytes.clone();
    bad_status[48] = 9;
    assert_eq!(LeaveRequest::decode(&bad_status), None);
    // cut inside the last character
    assert_eq!(LeaveRequest::decode(&bytes[..52].to_vec()), None);
    let no_reason = LeaveRequest { reason: String::new(), ..request() };
    assert_eq!(LeaveRequest::decode(&bytes[..49].to_vec()), Some(no_reason));
}

#[test]
fn leave_request_encode_refuses_what_does_not_fit() {
    let r = LeaveRequest { reason: "r".repeat(975), ..request() };
    assert_eq!(r.encode().unwrap().len(), 1024);
    let r = LeaveRequest { reason: "r".repeat(976), ..request() };
    assert_eq!(r.encode(), None);
}

#[test]
fn every_status_round_trips() {
    for state in STATES {
        let r = LeaveRequest { status: state, ..request() };
        assert_eq!(LeaveRequest::decode(&r.encode().unwrap()), Some(r));
    }
    for name in NAMES {
        for flag in [false, true] {
            let t = LeaveType { id: 1, name, quota: 2, carryover_allowed: flag, created_at: 3 };
            assert_eq!(LeaveType::decode(&t.encode().unwrap()), Some(t));
        }
    }
}

#[test]
fn criteria_test_rows() {
    assert!(FiledBy { employee_id: 1 }.test(&request()));
    assert!(!FiledBy { employee_id: 3 }.test(&request()));
    assert!(FoldedQuery { lowered: "ad".to_string() }.test(&ada()));
    assert!(FoldedQuery { lowered: "@b".to_string() }.test(&ada()));
    // the query is taken as it is: it is the caller who lowers it
    assert!(!FoldedQuery { lowered: "AD".to_string() }.test(&ada()));
    assert!(Criterion::<Employee>::test(&Everything, &ada()));
}

#[test]
fn render_header_names_the_employee() {
    let e = Employee { id: 17, ..ada() };
    assert_eq!(render_header(&e), "Leave report for Ada (Employee ID: 17)\n\n");
}

#[test]
fn render_entry_lists_the_request() {
    let policy =
        LeaveType { id: 2, name: LeaveName::Sick, quota: 7, carryover_allowed: false, created_at: 0 };
    assert_eq!(
        render_entry(&request(), &policy, 13),
        "Leave Request ID: 3\nLeave Type: Sick\nQuota: 7\nStart Date: 100\nEnd Date: 105\n\
         Status: Rejected\nReason: zoë\nRemaining Balance: 13\n\n"
    );
}

#[test]
fn tally_sums_by_category() {
    let mut tally = Tally::new();
    assert_eq!(render_summary(&tally), "");
    tally.add(LeaveName::Sick, 7);
    tally.add(LeaveName::Annual, 0);
    tally.add(LeaveName::Sick, u32::MAX);
    tally.add(LeaveName::Unpaid, 30);
    assert_eq!(tally.requests, 4);
    assert_eq!(tally.annual, Some(0));
    assert_eq!(tally.sick, Some(7 + u32::MAX as u128));
    assert_eq!(tally.maternity, None);
    assert_eq!(tally.paternity, None);
    assert_eq!(tally.unpaid, Some(30));
    assert_eq!(render_summary(&tally), "Annual: 0 days\nSick: 4294967302 days\nUnpaid: 30 days\n");
}
