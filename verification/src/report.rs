//! The leave report of one employee: what it says, and how it is written out.

use crate::model::{
    Balances, Employee, EmployeeView, LeaveName, LeaveRequest, LeaveRequestView, LeaveType,
};
use crate::text::{decimal, decimal_spec};
use vstd::prelude::*;
use vstd::string::StringExecFns;

verus! {

/// The first lines of a report.
pub open spec fn report_header(employee: EmployeeView) -> Seq<char> {
    "Leave report for "@ + employee.name + " (Employee ID: "@ + decimal_spec(employee.id as nat)
        + ")\n\n"@
}

/// The paragraph of one request: its identifier, the category and quota of its
/// policy, its dates, status and reason, and the days the employee has left in
/// that category now.
pub open spec fn report_entry(request: LeaveRequestView, policy: LeaveType, balance: u32) -> Seq<
    char,
> {
    "Leave Request ID: "@ + decimal_spec(request.id as nat) + "\nLeave Type: "@
        + policy.name.label_spec() + "\nQuota: "@ + decimal_spec(policy.quota as nat)
        + "\nStart Date: "@ + decimal_spec(request.start_date as nat) + "\nEnd Date: "@
        + decimal_spec(request.end_date as nat) + "\nStatus: "@ + request.status.label_spec()
        + "\nReason: "@ + request.reason + "\nRemaining Balance: "@ + decimal_spec(balance as nat)
        + "\n\n"@
}

/// The paragraphs of the requests, in their order.
pub open spec fn report_entries(
    rows: Seq<LeaveRequestView>,
    policies: Map<u64, LeaveType>,
    balances: Balances,
) -> Seq<char>
    decreases rows.len(),
{
    if rows.len() == 0 {
        Seq::empty()
    } else {
        let policy = policies[rows.last().leave_type_id];
        report_entries(rows.drop_last(), policies, balances) + report_entry(
            rows.last(),
            policy,
            balances.remaining_spec(policy.name),
        )
    }
}

/// A day count raised by one quota.
pub open spec fn raised_days(before: Option<nat>, quota: u32) -> nat {
    match before {
        Some(days) => (days + quota) as nat,
        None => quota as nat,
    }
}

/// The days that the requests of one category add up to, by the quota of each
/// request's policy; `None` where no request is of that category.
pub open spec fn days_taken(
    rows: Seq<LeaveRequestView>,
    policies: Map<u64, LeaveType>,
    name: LeaveName,
) -> Option<nat>
    decreases rows.len(),
{
    if rows.len() == 0 {
        None
    } else {
        let before = days_taken(rows.drop_last(), policies, name);
        let policy = policies[rows.last().leave_type_id];
        if policy.name == name {
            Some(raised_days(before, policy.quota))
        } else {
            before
        }
    }
}

/// The summary line of one category; nothing where no request is of it.
pub open spec fn summary_line(name: LeaveName, days: Option<nat>) -> Seq<char> {
    match days {
        Some(days) => name.label_spec() + ": "@ + decimal_spec(days) + " days\n"@,
        None => Seq::empty(),
    }
}

/// The summary: one line for each category that a request is of, in the order of
/// the enumeration.
pub open spec fn report_summary(rows: Seq<LeaveRequestView>, policies: Map<u64, LeaveType>) -> Seq<
    char,
> {
    summary_line(LeaveName::Annual, days_taken(rows, policies, LeaveName::Annual)) + summary_line(
        LeaveName::Sick,
        days_taken(rows, policies, LeaveName::Sick),
    ) + summary_line(LeaveName::Maternity, days_taken(rows, policies, LeaveName::Maternity))
        + summary_line(LeaveName::Paternity, days_taken(rows, policies, LeaveName::Paternity))
        + summary_line(LeaveName::Unpaid, days_taken(rows, policies, LeaveName::Unpaid))
}

/// The whole report.
pub open spec fn report_text(
    employee: EmployeeView,
    rows: Seq<LeaveRequestView>,
    policies: Map<u64, LeaveType>,
) -> Seq<char> {
    report_header(employee) + report_entries(rows, policies, employee.balances)
        + "Summary of Leave Taken by Type:\n"@ + report_summary(rows, policies)
}

/// The most that the quotas of `count` requests can add up to.
pub open spec fn days_bound(count: nat) -> nat {
    count * 0x1_0000_0000
}

/// The days taken so far in each category, over a number of requests.
pub struct Tally {
    pub requests: usize,
    pub annual: Option<u128>,
    pub sick: Option<u128>,
    pub maternity: Option<u128>,
    pub paternity: Option<u128>,
    pub unpaid: Option<u128>,
}

pub open spec fn as_days(days: Option<u128>) -> Option<nat> {
    match days {
        Some(days) => Some(days as nat),
        None => None,
    }
}

impl Tally {
    pub open spec fn days_spec(self, name: LeaveName) -> Option<nat> {
        match name {
            LeaveName::Annual => as_days(self.annual),
            LeaveName::Sick => as_days(self.sick),
            LeaveName::Maternity => as_days(self.maternity),
            LeaveName::Paternity => as_days(self.paternity),
            LeaveName::Unpaid => as_days(self.unpaid),
        }
    }

    /// The tally is that of the given requests.
    pub open spec fn counts(self, rows: Seq<LeaveRequestView>, policies: Map<u64, LeaveType>) -> bool {
        &&& self.requests == rows.len()
        &&& forall|name: LeaveName| #[trigger]
            self.days_spec(name) == days_taken(rows, policies, name)
    }

    /// No category holds more than one quota for each request counted.
    pub open spec fn wf(self) -> bool {
        forall|name: LeaveName|
            (#[trigger] self.days_spec(name)) is Some ==> self.days_spec(name)->Some_0
                <= days_bound(self.requests as nat)
    }

    pub fn new() -> (tally: Tally)
        ensures
            tally.wf(),
            tally.requests == 0,
            forall|name: LeaveName| #[trigger] tally.days_spec(name) is None,
    {
        Tally {
            requests: 0,
            annual: None,
            sick: None,
            maternity: None,
            paternity: None,
            unpaid: None,
        }
    }

    /// Counts one more request, of category `name`, with its quota.
    pub fn add(&mut self, name: LeaveName, quota: u32)
        requires
            old(self).wf(),
            old(self).requests < usize::MAX,
        ensures
            final(self).wf(),
            final(self).requests == old(self).requests + 1,
            forall|other: LeaveName|
                other != name ==> #[trigger] final(self).days_spec(other) == old(self).days_spec(
                    other,
                ),
            final(self).days_spec(name) == Some(raised_days(old(self).days_spec(name), quota)),
    {
        let ghost count = self.requests as nat;
        assert(days_bound(count) + 0x1_0000_0000 == days_bound(count + 1));
        assert(days_bound(count + 1) < 0x1_0000_0000_0000_0000_0000_0000);
        assert(old(self).days_spec(name) is Some ==> old(self).days_spec(name)->Some_0
            <= days_bound(count));
        match name {
            LeaveName::Annual => { self.annual = Some(raised(self.annual, quota)); },
            LeaveName::Sick => { self.sick = Some(raised(self.sick, quota)); },
            LeaveName::Maternity => { self.maternity = Some(raised(self.maternity, quota)); },
            LeaveName::Paternity => { self.paternity = Some(raised(self.paternity, quota)); },
            LeaveName::Unpaid => { self.unpaid = Some(raised(self.unpaid, quota)); },
        }
        self.requests = self.requests + 1;
        assert forall|other: LeaveName| (#[trigger] self.days_spec(other)) is Some implies self.days_spec(
            other,
        )->Some_0 <= days_bound(self.requests as nat) by {
            if other != name {
                assert(old(self).days_spec(other) is Some ==> old(self).days_spec(other)->Some_0
                    <= days_bound(count));
            }
        }
    }
}

fn raised(days: Option<u128>, quota: u32) -> (sum: u128)
    requires
        days matches Some(d) ==> d + quota <= u128::MAX,
    ensures
        sum == match days {
            Some(d) => d + quota,
            None => quota as int,
        },
{
    match days {
        Some(d) => d + quota as u128,
        None => quota as u128,
    }
}

pub fn render_header(employee: &Employee) -> (text: String)
    ensures
        text@ == report_header(employee@),
{
    let mut text: String = String::from_str("Leave report for ");
    text.append(employee.name.as_str());
    text.append(" (Employee ID: ");
    text.append(decimal(employee.id as u128).as_str());
    text.append(")\n\n");
    text
}

pub fn render_entry(request: &LeaveRequest, policy: &LeaveType, balance: u32) -> (text: String)
    ensures
        text@ == report_entry(request@, *policy, balance),
{
    let mut text: String = String::from_str("Leave Request ID: ");
    text.append(decimal(request.id as u128).as_str());
    text.append("\nLeave Type: ");
    text.append(policy.name.label().as_str());
    text.append("\nQuota: ");
    text.append(decimal(policy.quota as u128).as_str());
    text.append("\nStart Date: ");
    text.append(decimal(request.start_date as u128).as_str());
    text.append("\nEnd Date: ");
    text.append(decimal(request.end_date as u128).as_str());
    text.append("\nStatus: ");
    text.append(request.status.label().as_str());
    text.append("\nReason: ");
    text.append(request.reason.as_str());
    text.append("\nRemaining Balance: ");
    text.append(decimal(balance as u128).as_str());
    text.append("\n\n");
    text
}

fn render_line(name: LeaveName, days: Option<u128>) -> (text: String)
    ensures
        text@ == summary_line(name, as_days(days)),
{
    match days {
        Some(days) => {
            let mut text: String = name.label();
            text.append(": ");
            text.append(decimal(days).as_str());
            text.append(" days\n");
            text
        },
        None => String::new(),
    }
}

/// Writes out the summary of a tally.
pub fn render_summary(tally: &Tally) -> (text: String)
    ensures
        text@ == summary_line(LeaveName::Annual, tally.days_spec(LeaveName::Annual))
            + summary_line(LeaveName::Sick, tally.days_spec(LeaveName::Sick)) + summary_line(
            LeaveName::Maternity,
            tally.days_spec(LeaveName::Maternity),
        ) + summary_line(LeaveName::Paternity, tally.days_spec(LeaveName::Paternity))
            + summary_line(LeaveName::Unpaid, tally.days_spec(LeaveName::Unpaid)),
{
    let mut text: String = render_line(LeaveName::Annual, tally.annual);
    text.append(render_line(LeaveName::Sick, tally.sick).as_str());
    text.append(render_line(LeaveName::Maternity, tally.maternity).as_str());
    text.append(render_line(LeaveName::Paternity, tally.paternity).as_str());
    text.append(render_line(LeaveName::Unpaid, tally.unpaid).as_str());
    text
}

} // verus!
