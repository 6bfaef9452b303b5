//! The entities of the leave ledger and their mathematical views.

use vstd::prelude::*;
use vstd::string::StringExecFns;

verus! {

/// The closed set of leave categories.
#[derive(Clone, Copy, Debug, PartialEq, Eq, Hash, Structural)]
pub enum LeaveName {
    Annual,
    Sick,
    Maternity,
    Paternity,
    Unpaid,
}

impl LeaveName {
    /// The display label of a leave category.
    pub open spec fn label_spec(self) -> Seq<char> {
        match self {
            LeaveName::Annual => "Annual"@,
            LeaveName::Sick => "Sick"@,
            LeaveName::Maternity => "Maternity"@,
            LeaveName::Paternity => "Paternity"@,
            LeaveName::Unpaid => "Unpaid"@,
        }
    }

    pub fn label(&self) -> (s: String)
        ensures
            s@ == self.label_spec(),
    {
        match self {
            LeaveName::Annual => String::from_str("Annual"),
            LeaveName::Sick => String::from_str("Sick"),
            LeaveName::Maternity => String::from_str("Maternity"),
            LeaveName::Paternity => String::from_str("Paternity"),
            LeaveName::Unpaid => String::from_str("Unpaid"),
        }
    }

    /// The position of a category in the enumeration, which is also its stored code.
    pub open spec fn code_spec(self) -> u8 {
        match self {
            LeaveName::Annual => 0,
            LeaveName::Sick => 1,
            LeaveName::Maternity => 2,
            LeaveName::Paternity => 3,
            LeaveName::Unpaid => 4,
        }
    }

    pub open spec fn from_code_spec(code: u8) -> Option<LeaveName> {
        if code == 0 {
            Some(LeaveName::Annual)
        } else if code == 1 {
            Some(LeaveName::Sick)
        } else if code == 2 {
            Some(LeaveName::Maternity)
        } else if code == 3 {
            Some(LeaveName::Paternity)
        } else if code == 4 {
            Some(LeaveName::Unpaid)
        } else {
            None
        }
    }

    pub fn code(&self) -> (c: u8)
        ensures
            c == self.code_spec(),
    {
        match self {
            LeaveName::Annual => 0,
            LeaveName::Sick => 1,
            LeaveName::Maternity => 2,
            LeaveName::Paternity => 3,
            LeaveName::Unpaid => 4,
        }
    }

    /// The category with the given code; `None` for a code outside the enumeration.
    pub fn from_code(code: u8) -> (r: Option<LeaveName>)
        ensures
            r == Self::from_code_spec(code),
    {
        if code == 0 {
            Some(LeaveName::Annual)
        } else if code == 1 {
            Some(LeaveName::Sick)
        } else if code == 2 {
            Some(LeaveName::Maternity)
        } else if code == 3 {
            Some(LeaveName::Paternity)
        } else if code == 4 {
            Some(LeaveName::Unpaid)
        } else {
            None
        }
    }
}

/// The lifecycle states of a leave request.
#[derive(Clone, Copy, Debug, PartialEq, Eq, Hash, Structural)]
pub enum LeaveStatusEnum {
    Pending,
    Approved,
    Rejected,
    Accrued,
    Canceled,
}

impl LeaveStatusEnum {
    pub open spec fn label_spec(self) -> Seq<char> {
        match self {
            LeaveStatusEnum::Pending => "Pending"@,
            LeaveStatusEnum::Approved => "Approved"@,
            LeaveStatusEnum::Rejected => "Rejected"@,
            LeaveStatusEnum::Accrued => "Accrued"@,
            LeaveStatusEnum::Canceled => "Canceled"@,
        }
    }

    pub fn label(&self) -> (s: String)
        ensures
            s@ == self.label_spec(),
    {
        match self {
            LeaveStatusEnum::Pending => String::from_str("Pending"),
            LeaveStatusEnum::Approved => String::from_str("Approved"),
            LeaveStatusEnum::Rejected => String::from_str("Rejected"),
            LeaveStatusEnum::Accrued => String::from_str("Accrued"),
            LeaveStatusEnum::Canceled => String::from_str("Canceled"),
        }
    }

    pub open spec fn code_spec(self) -> u8 {
        match self {
            LeaveStatusEnum::Pending => 0,
            LeaveStatusEnum::Approved => 1,
            LeaveStatusEnum::Rejected => 2,
            LeaveStatusEnum::Accrued => 3,
            LeaveStatusEnum::Canceled => 4,
        }
    }

    pub open spec fn from_code_spec(code: u8) -> Option<LeaveStatusEnum> {
        if code == 0 {
            Some(LeaveStatusEnum::Pending)
        } else if code == 1 {
            Some(LeaveStatusEnum::Approved)
        } else if code == 2 {
            Some(LeaveStatusEnum::Rejected)
        } else if code == 3 {
            Some(LeaveStatusEnum::Accrued)
        } else if code == 4 {
            Some(LeaveStatusEnum::Canceled)
        } else {
            None
        }
    }

    pub fn code(&self) -> (c: u8)
        ensures
            c == self.code_spec(),
    {
        match self {
            LeaveStatusEnum::Pending => 0,
            LeaveStatusEnum::Approved => 1,
            LeaveStatusEnum::Rejected => 2,
            LeaveStatusEnum::Accrued => 3,
            LeaveStatusEnum::Canceled => 4,
        }
    }

    pub fn from_code(code: u8) -> (r: Option<LeaveStatusEnum>)
        ensures
            r == Self::from_code_spec(code),
    {
        if code == 0 {
            Some(LeaveStatusEnum::Pending)
        } else if code == 1 {
            Some(LeaveStatusEnum::Approved)
        } else if code == 2 {
            Some(LeaveStatusEnum::Rejected)
        } else if code == 3 {
            Some(LeaveStatusEnum::Accrued)
        } else if code == 4 {
            Some(LeaveStatusEnum::Canceled)
        } else {
            None
        }
    }
}

/// The allowance every employee starts with, for each leave category.
pub const STARTING_BALANCE: u32 = 20;

/// Remaining days per leave category: a total map over the closed enumeration.
#[derive(Clone, Copy, Debug, PartialEq, Eq, Structural)]
pub struct Balances {
    pub annual: u32,
    pub sick: u32,
    pub maternity: u32,
    pub paternity: u32,
    pub unpaid: u32,
}

/// What is left of `balance` after `days` are taken from it, never below zero.
pub open spec fn debited(balance: u32, days: u32) -> u32 {
    if balance >= days {
        (balance - days) as u32
    } else {
        0
    }
}

impl View for Balances {
    type V = Map<LeaveName, u32>;

    /// The balances as a map whose domain is every leave category.
    open spec fn view(&self) -> Map<LeaveName, u32> {
        Map::new(|name: LeaveName| true, |name: LeaveName| self.remaining_spec(name))
    }
}

impl Balances {
    pub open spec fn remaining_spec(self, name: LeaveName) -> u32 {
        match name {
            LeaveName::Annual => self.annual,
            LeaveName::Sick => self.sick,
            LeaveName::Maternity => self.maternity,
            LeaveName::Paternity => self.paternity,
            LeaveName::Unpaid => self.unpaid,
        }
    }

    /// The balances of a new employee.
    pub open spec fn initial_spec() -> Balances {
        Balances {
            annual: STARTING_BALANCE,
            sick: STARTING_BALANCE,
            maternity: STARTING_BALANCE,
            paternity: STARTING_BALANCE,
            unpaid: STARTING_BALANCE,
        }
    }

    /// The balances after `days` are debited from `name`, all others unchanged.
    pub open spec fn debit_spec(self, name: LeaveName, days: u32) -> Balances {
        match name {
            LeaveName::Annual => Balances { annual: debited(self.annual, days), ..self },
            LeaveName::Sick => Balances { sick: debited(self.sick, days), ..self },
            LeaveName::Maternity => Balances { maternity: debited(self.maternity, days), ..self },
            LeaveName::Paternity => Balances { paternity: debited(self.paternity, days), ..self },
            LeaveName::Unpaid => Balances { unpaid: debited(self.unpaid, days), ..self },
        }
    }

    pub fn initial() -> (b: Balances)
        ensures
            b == Self::initial_spec(),
    {
        Balances {
            annual: STARTING_BALANCE,
            sick: STARTING_BALANCE,
            maternity: STARTING_BALANCE,
            paternity: STARTING_BALANCE,
            unpaid: STARTING_BALANCE,
        }
    }

    pub fn remaining(&self, name: LeaveName) -> (days: u32)
        ensures
            days == self.remaining_spec(name),
    {
        match name {
            LeaveName::Annual => self.annual,
            LeaveName::Sick => self.sick,
            LeaveName::Maternity => self.maternity,
            LeaveName::Paternity => self.paternity,
            LeaveName::Unpaid => self.unpaid,
        }
    }

    /// Takes `days` from the balance of `name`, saturating at zero.
    pub fn debit(&self, name: LeaveName, days: u32) -> (b: Balances)
        ensures
            b == self.debit_spec(name, days),
    {
        let mut b: Balances = *self;
        match name {
            LeaveName::Annual => { b.annual = saturating_take(self.annual, days); },
            LeaveName::Sick => { b.sick = saturating_take(self.sick, days); },
            LeaveName::Maternity => { b.maternity = saturating_take(self.maternity, days); },
            LeaveName::Paternity => { b.paternity = saturating_take(self.paternity, days); },
            LeaveName::Unpaid => { b.unpaid = saturating_take(self.unpaid, days); },
        }
        b
    }
}

fn saturating_take(balance: u32, days: u32) -> (left: u32)
    ensures
        left == debited(balance, days),
{
    if balance >= days {
        balance - days
    } else {
        0
    }
}

/// A debit touches one category only and never makes a balance negative or larger.
pub proof fn law_debit_saturates(b: Balances, name: LeaveName, days: u32, other: LeaveName)
    ensures
        b.debit_spec(name, days).remaining_spec(name) == debited(b.remaining_spec(name), days),
        other != name ==> b.debit_spec(name, days).remaining_spec(other) == b.remaining_spec(other),
        0 <= debited(b.remaining_spec(name), days) <= b.remaining_spec(name),
{
}

/// An employee and the days left to them in each leave category.
#[derive(Clone, Debug, PartialEq, Eq)]
pub struct Employee {
    pub id: u64,
    pub name: String,
    pub email: String,
    pub balances: Balances,
    pub created_at: u64,
}

#[verifier::ext_equal]
pub struct EmployeeView {
    pub id: u64,
    pub name: Seq<char>,
    pub email: Seq<char>,
    pub balances: Balances,
    pub created_at: u64,
}

impl View for Employee {
    type V = EmployeeView;

    open spec fn view(&self) -> EmployeeView {
        EmployeeView {
            id: self.id,
            name: self.name@,
            email: self.email@,
            balances: self.balances,
            created_at: self.created_at,
        }
    }
}

/// A leave policy: a category with the days debited per approved request.
#[derive(Clone, Copy, Debug, PartialEq, Eq, Structural)]
pub struct LeaveType {
    pub id: u64,
    pub name: LeaveName,
    pub quota: u32,
    pub carryover_allowed: bool,
    pub created_at: u64,
}

impl View for LeaveType {
    type V = LeaveType;

    open spec fn view(&self) -> LeaveType {
        *self
    }
}

/// A request for leave; only its status changes after creation.
#[derive(Clone, Debug, PartialEq, Eq)]
pub struct LeaveRequest {
    pub id: u64,
    pub employee_id: u64,
    pub leave_type_id: u64,
    pub start_date: u64,
    pub end_date: u64,
    pub status: LeaveStatusEnum,
    pub reason: String,
    pub created_at: u64,
}

#[verifier::ext_equal]
pub struct LeaveRequestView {
    pub id: u64,
    pub employee_id: u64,
    pub leave_type_id: u64,
    pub start_date: u64,
    pub end_date: u64,
    pub status: LeaveStatusEnum,
    pub reason: Seq<char>,
    pub created_at: u64,
}

impl View for LeaveRequest {
    type V = LeaveRequestView;

    open spec fn view(&self) -> LeaveRequestView {
        LeaveRequestView {
            id: self.id,
            employee_id: self.employee_id,
            leave_type_id: self.leave_type_id,
            start_date: self.start_date,
            end_date: self.end_date,
            status: self.status,
            reason: self.reason@,
            created_at: self.created_at,
        }
    }
}

/// What a caller supplies to register an employee; an empty `email` asks for a generated one.
#[derive(Clone, Debug, PartialEq, Eq)]
pub struct EmployeePayload {
    pub name: String,
    pub email: String,
}

/// What a caller supplies to file a leave request.
#[derive(Clone, Debug, PartialEq, Eq)]
pub struct LeaveRequestPayload {
    pub employee_id: u64,
    pub leave_type_id: u64,
    pub start_date: u64,
    pub end_date: u64,
    pub reason: String,
}

#[verifier::ext_equal]
pub struct LeaveRequestPayloadView {
    pub employee_id: u64,
    pub leave_type_id: u64,
    pub start_date: u64,
    pub end_date: u64,
    pub reason: Seq<char>,
}

impl View for LeaveRequestPayload {
    type V = LeaveRequestPayloadView;

    open spec fn view(&self) -> LeaveRequestPayloadView {
        LeaveRequestPayloadView {
            employee_id: self.employee_id,
            leave_type_id: self.leave_type_id,
            start_date: self.start_date,
            end_date: self.end_date,
            reason: self.reason@,
        }
    }
}

} // verus!
