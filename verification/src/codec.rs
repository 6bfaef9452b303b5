//! The bounded byte layout of each entity, with the proof that what is encoded
//! decodes to itself and that an accepted record has one encoding only.
//!
//! Integers are little-endian and of fixed width; texts are UTF-8. A record never
//! exceeds `MAX_RECORD_SIZE` bytes.

use crate::model::{
    Balances, Employee, EmployeeView, LeaveName, LeaveRequest, LeaveRequestView,
    LeaveStatusEnum, LeaveType,
};
use crate::stable::MAX_RECORD_SIZE;
use crate::text::string_from_utf8;
use vstd::bytes::{
    lemma_auto_spec_u32_to_from_le_bytes, lemma_auto_spec_u64_to_from_le_bytes,
    spec_u32_from_le_bytes, spec_u32_to_le_bytes, spec_u64_from_le_bytes, spec_u64_to_le_bytes,
    u32_from_le_bytes, u32_to_le_bytes, u64_from_le_bytes, u64_to_le_bytes,
};
use vstd::prelude::*;
use vstd::slice::{slice_subrange, slice_to_vec};
use vstd::utf8::{
    decode_utf8, decode_utf8_encode_utf8, encode_utf8, encode_utf8_decode_utf8,
    encode_utf8_valid_utf8, valid_utf8,
};

verus! {

/// A type whose values are stored as bounded byte records.
pub trait Record: Sized + View {
    /// The bytes that stand for a value.
    spec fn encoding(v: Self::V) -> Seq<u8>;

    /// The value that a byte string stands for, if it stands for one.
    spec fn decoding(bytes: Seq<u8>) -> Option<Self::V>;

    /// The identifier that a value carries.
    spec fn id_of(v: Self::V) -> u64;

    /// Whatever fits in a record decodes to itself.
    proof fn lemma_round_trip(v: Self::V)
        requires
            Self::encoding(v).len() <= MAX_RECORD_SIZE,
        ensures
            Self::decoding(Self::encoding(v)) == Some(v),
    ;

    /// A byte string that decodes is the encoding of what it decodes to.
    proof fn lemma_canonical(bytes: Seq<u8>)
        requires
            Self::decoding(bytes) is Some,
        ensures
            Self::encoding(Self::decoding(bytes)->Some_0) == bytes,
    ;

    fn id(&self) -> (id: u64)
        ensures
            id == Self::id_of(self@),
    ;

    /// Encodes a value; `None` exactly when it does not fit in a record.
    fn encode(&self) -> (r: Option<Vec<u8>>)
        ensures
            r is Some <==> Self::encoding(self@).len() <= MAX_RECORD_SIZE,
            r matches Some(bytes) ==> bytes@ == Self::encoding(self@),
    ;

    /// Decodes a byte string; `None` exactly when it stands for no value.
    fn decode(bytes: &Vec<u8>) -> (r: Option<Self>)
        ensures
            r is Some <==> Self::decoding(bytes@) is Some,
            r matches Some(value) ==> Self::decoding(bytes@) == Some(value@),
    ;
}

fn put_u64(out: &mut Vec<u8>, x: u64)
    ensures
        final(out)@ == old(out)@ + spec_u64_to_le_bytes(x),
{
    let mut field: Vec<u8> = u64_to_le_bytes(x);
    out.append(&mut field);
}

fn put_u32(out: &mut Vec<u8>, x: u32)
    ensures
        final(out)@ == old(out)@ + spec_u32_to_le_bytes(x),
{
    let mut field: Vec<u8> = u32_to_le_bytes(x);
    out.append(&mut field);
}

fn put_text(out: &mut Vec<u8>, text: &str)
    ensures
        final(out)@ == old(out)@ + encode_utf8(text@),
{
    out.extend_from_slice(text.as_bytes());
    assert(out@ =~= old(out)@ + encode_utf8(text@));
}

/// The number of bytes that a text takes in a record.
pub fn text_size(text: &str) -> (n: usize)
    ensures
        n == encode_utf8(text@).len(),
{
    text.as_bytes().len()
}

fn read_u64(bytes: &Vec<u8>, at: usize) -> (x: u64)
    requires
        at + 8 <= bytes.len(),
    ensures
        x == spec_u64_from_le_bytes(bytes@.subrange(at as int, at + 8)),
{
    u64_from_le_bytes(slice_subrange(bytes.as_slice(), at, at + 8))
}

fn read_u32(bytes: &Vec<u8>, at: usize) -> (x: u32)
    requires
        at + 4 <= bytes.len(),
    ensures
        x == spec_u32_from_le_bytes(bytes@.subrange(at as int, at + 4)),
{
    u32_from_le_bytes(slice_subrange(bytes.as_slice(), at, at + 4))
}

fn read_text(bytes: &Vec<u8>, from: usize, to: usize) -> (r: Option<String>)
    requires
        from <= to <= bytes.len(),
    ensures
        r is Some <==> valid_utf8(bytes@.subrange(from as int, to as int)),
        r matches Some(text) ==> text@ == decode_utf8(bytes@.subrange(from as int, to as int)),
{
    string_from_utf8(slice_to_vec(slice_subrange(bytes.as_slice(), from, to)))
}

/// The stored form of a flag.
pub open spec fn flag_code(flag: bool) -> u8 {
    if flag {
        1
    } else {
        0
    }
}

/// The number of bytes of a leave policy record.
pub const LEAVE_TYPE_SIZE: usize = 22;

/// Layout: id, creation time (8 bytes each), quota (4), category code, carry-over flag.
pub open spec fn leave_type_encoding(v: LeaveType) -> Seq<u8> {
    spec_u64_to_le_bytes(v.id) + spec_u64_to_le_bytes(v.created_at) + spec_u32_to_le_bytes(
        v.quota,
    ) + seq![v.name.code_spec(), flag_code(v.carryover_allowed)]
}

pub open spec fn leave_type_decoding(bytes: Seq<u8>) -> Option<LeaveType> {
    if bytes.len() == LEAVE_TYPE_SIZE && LeaveName::from_code_spec(bytes[20]) is Some && bytes[21]
        <= 1 {
        Some(
            LeaveType {
                id: spec_u64_from_le_bytes(bytes.subrange(0, 8)),
                created_at: spec_u64_from_le_bytes(bytes.subrange(8, 16)),
                quota: spec_u32_from_le_bytes(bytes.subrange(16, 20)),
                name: LeaveName::from_code_spec(bytes[20])->Some_0,
                carryover_allowed: bytes[21] == 1,
            },
        )
    } else {
        None
    }
}

/// Every leave policy record has the same length.
pub proof fn lemma_leave_type_size(v: LeaveType)
    ensures
        leave_type_encoding(v).len() == LEAVE_TYPE_SIZE,
{
    lemma_auto_spec_u64_to_from_le_bytes();
    lemma_auto_spec_u32_to_from_le_bytes();
}

impl Record for LeaveType {
    open spec fn encoding(v: LeaveType) -> Seq<u8> {
        leave_type_encoding(v)
    }

    open spec fn decoding(bytes: Seq<u8>) -> Option<LeaveType> {
        leave_type_decoding(bytes)
    }

    open spec fn id_of(v: LeaveType) -> u64 {
        v.id
    }

    fn id(&self) -> (id: u64) {
        self.id
    }

    proof fn lemma_round_trip(v: LeaveType) {
        lemma_auto_spec_u64_to_from_le_bytes();
        lemma_auto_spec_u32_to_from_le_bytes();
        let bytes = leave_type_encoding(v);
        assert(bytes.subrange(0, 8) =~= spec_u64_to_le_bytes(v.id));
        assert(bytes.subrange(8, 16) =~= spec_u64_to_le_bytes(v.created_at));
        assert(bytes.subrange(16, 20) =~= spec_u32_to_le_bytes(v.quota));
        assert(bytes[20] == v.name.code_spec());
        assert(bytes[21] == flag_code(v.carryover_allowed));
    }

    proof fn lemma_canonical(bytes: Seq<u8>) {
        lemma_auto_spec_u64_to_from_le_bytes();
        lemma_auto_spec_u32_to_from_le_bytes();
        let v = leave_type_decoding(bytes)->Some_0;
        assert(spec_u64_to_le_bytes(v.id) == bytes.subrange(0, 8));
        assert(spec_u64_to_le_bytes(v.created_at) == bytes.subrange(8, 16));
        assert(spec_u32_to_le_bytes(v.quota) == bytes.subrange(16, 20));
        assert(leave_type_encoding(v) =~= bytes);
    }

    fn encode(&self) -> (r: Option<Vec<u8>>) {
        proof {
            lemma_auto_spec_u64_to_from_le_bytes();
            lemma_auto_spec_u32_to_from_le_bytes();
        }
        let mut out: Vec<u8> = Vec::new();
        put_u64(&mut out, self.id);
        put_u64(&mut out, self.created_at);
        put_u32(&mut out, self.quota);
        out.push(self.name.code());
        out.push(if self.carryover_allowed { 1u8 } else { 0u8 });
        assert(out@ =~= leave_type_encoding(*self));
        Some(out)
    }

    fn decode(bytes: &Vec<u8>) -> (r: Option<LeaveType>) {
        if bytes.len() != LEAVE_TYPE_SIZE {
            return None;
        }
        let name: LeaveName = match LeaveName::from_code(bytes[20]) {
            Some(name) => name,
            None => { return None; },
        };
        if bytes[21] > 1 {
            return None;
        }
        Some(
            LeaveType {
                id: read_u64(bytes, 0),
                created_at: read_u64(bytes, 8),
                quota: read_u32(bytes, 16),
                name,
                carryover_allowed: bytes[21] == 1,
            },
        )
    }
}

/// The number of bytes of a leave request record before its reason.
pub const LEAVE_REQUEST_HEADER: usize = 49;

pub open spec fn leave_request_header(v: LeaveRequestView) -> Seq<u8> {
    spec_u64_to_le_bytes(v.id) + spec_u64_to_le_bytes(v.employee_id) + spec_u64_to_le_bytes(
        v.leave_type_id,
    ) + spec_u64_to_le_bytes(v.start_date) + spec_u64_to_le_bytes(v.end_date)
        + spec_u64_to_le_bytes(v.created_at) + seq![v.status.code_spec()]
}

/// Layout: id, employee, leave policy, start, end, creation time (8 bytes each),
/// status code, then the reason to the end of the record.
pub open spec fn leave_request_encoding(v: LeaveRequestView) -> Seq<u8> {
    leave_request_header(v) + encode_utf8(v.reason)
}

pub open spec fn leave_request_decoding(bytes: Seq<u8>) -> Option<LeaveRequestView> {
    if bytes.len() >= LEAVE_REQUEST_HEADER && LeaveStatusEnum::from_code_spec(bytes[48]) is Some
        && valid_utf8(bytes.subrange(LEAVE_REQUEST_HEADER as int, bytes.len() as int)) {
        Some(
            LeaveRequestView {
                id: spec_u64_from_le_bytes(bytes.subrange(0, 8)),
                employee_id: spec_u64_from_le_bytes(bytes.subrange(8, 16)),
                leave_type_id: spec_u64_from_le_bytes(bytes.subrange(16, 24)),
                start_date: spec_u64_from_le_bytes(bytes.subrange(24, 32)),
                end_date: spec_u64_from_le_bytes(bytes.subrange(32, 40)),
                created_at: spec_u64_from_le_bytes(bytes.subrange(40, 48)),
                status: LeaveStatusEnum::from_code_spec(bytes[48])->Some_0,
                reason: decode_utf8(bytes.subrange(LEAVE_REQUEST_HEADER as int, bytes.len() as int)),
            },
        )
    } else {
        None
    }
}

/// Whether a leave request with this reason fits in a record.
pub fn leave_request_fits(reason: &str) -> (fits: bool)
    ensures
        fits == (LEAVE_REQUEST_HEADER + encode_utf8(reason@).len() <= MAX_RECORD_SIZE),
{
    text_size(reason) <= MAX_RECORD_SIZE - LEAVE_REQUEST_HEADER
}

/// The length of a leave request record depends on its reason alone.
pub proof fn lemma_leave_request_size(v: LeaveRequestView)
    ensures
        leave_request_encoding(v).len() == LEAVE_REQUEST_HEADER + encode_utf8(v.reason).len(),
{
    lemma_auto_spec_u64_to_from_le_bytes();
}

impl Record for LeaveRequest {
    open spec fn encoding(v: LeaveRequestView) -> Seq<u8> {
        leave_request_encoding(v)
    }

    open spec fn decoding(bytes: Seq<u8>) -> Option<LeaveRequestView> {
        leave_request_decoding(bytes)
    }

    open spec fn id_of(v: LeaveRequestView) -> u64 {
        v.id
    }

    fn id(&self) -> (id: u64) {
        self.id
    }

    proof fn lemma_round_trip(v: LeaveRequestView) {
        lemma_auto_spec_u64_to_from_le_bytes();
        encode_utf8_valid_utf8(v.reason);
        encode_utf8_decode_utf8(v.reason);
        let bytes = leave_request_encoding(v);
        assert(bytes.subrange(0, 8) =~= spec_u64_to_le_bytes(v.id));
        assert(bytes.subrange(8, 16) =~= spec_u64_to_le_bytes(v.employee_id));
        assert(bytes.subrange(16, 24) =~= spec_u64_to_le_bytes(v.leave_type_id));
        assert(bytes.subrange(24, 32) =~= spec_u64_to_le_bytes(v.start_date));
        assert(bytes.subrange(32, 40) =~= spec_u64_to_le_bytes(v.end_date));
        assert(bytes.subrange(40, 48) =~= spec_u64_to_le_bytes(v.created_at));
        assert(bytes[48] == v.status.code_spec());
        assert(bytes.subrange(LEAVE_REQUEST_HEADER as int, bytes.len() as int) =~= encode_utf8(
            v.reason,
        ));
        assert(leave_request_decoding(bytes)->Some_0 =~= v);
    }

    proof fn lemma_canonical(bytes: Seq<u8>) {
        lemma_auto_spec_u64_to_from_le_bytes();
        let v = leave_request_decoding(bytes)->Some_0;
        let tail = bytes.subrange(LEAVE_REQUEST_HEADER as int, bytes.len() as int);
        decode_utf8_encode_utf8(tail);
        assert(spec_u64_to_le_bytes(v.id) == bytes.subrange(0, 8));
        assert(spec_u64_to_le_bytes(v.employee_id) == bytes.subrange(8, 16));
        assert(spec_u64_to_le_bytes(v.leave_type_id) == bytes.subrange(16, 24));
        assert(spec_u64_to_le_bytes(v.start_date) == bytes.subrange(24, 32));
        assert(spec_u64_to_le_bytes(v.end_date) == bytes.subrange(32, 40));
        assert(spec_u64_to_le_bytes(v.created_at) == bytes.subrange(40, 48));
        assert(encode_utf8(v.reason) == tail);
        assert(leave_request_encoding(v) =~= bytes);
    }

    fn encode(&self) -> (r: Option<Vec<u8>>) {
        proof {
            lemma_leave_request_size(self@);
        }
        if !leave_request_fits(self.reason.as_str()) {
            return None;
        }
        let mut out: Vec<u8> = Vec::new();
        put_u64(&mut out, self.id);
        put_u64(&mut out, self.employee_id);
        put_u64(&mut out, self.leave_type_id);
        put_u64(&mut out, self.start_date);
        put_u64(&mut out, self.end_date);
        put_u64(&mut out, self.created_at);
        out.push(self.status.code());
        assert(out@ =~= leave_request_header(self@));
        put_text(&mut out, self.reason.as_str());
        Some(out)
    }

    fn decode(bytes: &Vec<u8>) -> (r: Option<LeaveRequest>) {
        if bytes.len() < LEAVE_REQUEST_HEADER {
            return None;
        }
        let status: LeaveStatusEnum = match LeaveStatusEnum::from_code(bytes[48]) {
            Some(status) => status,
            None => { return None; },
        };
        let reason: String = match read_text(bytes, LEAVE_REQUEST_HEADER, bytes.len()) {
            Some(reason) => reason,
            None => { return None; },
        };
        Some(
            LeaveRequest {
                id: read_u64(bytes, 0),
                employee_id: read_u64(bytes, 8),
                leave_type_id: read_u64(bytes, 16),
                start_date: read_u64(bytes, 24),
                end_date: read_u64(bytes, 32),
                status,
                reason,
                created_at: read_u64(bytes, 40),
            },
        )
    }
}

/// The number of bytes of an employee record before its name.
pub const EMPLOYEE_HEADER: usize = 40;

pub open spec fn balances_encoding(b: Balances) -> Seq<u8> {
    spec_u32_to_le_bytes(b.annual) + spec_u32_to_le_bytes(b.sick) + spec_u32_to_le_bytes(
        b.maternity,
    ) + spec_u32_to_le_bytes(b.paternity) + spec_u32_to_le_bytes(b.unpaid)
}

pub open spec fn employee_header(v: EmployeeView) -> Seq<u8> {
    spec_u64_to_le_bytes(v.id) + spec_u64_to_le_bytes(v.created_at) + balances_encoding(
        v.balances,
    ) + spec_u32_to_le_bytes(encode_utf8(v.name).len() as u32)
}

/// Layout: id, creation time (8 bytes each), the five balances in the order of the
/// enumeration (4 bytes each), the length of the name in bytes (4), the name, then
/// the e-mail address to the end of the record.
pub open spec fn employee_encoding(v: EmployeeView) -> Seq<u8> {
    employee_header(v) + encode_utf8(v.name) + encode_utf8(v.email)
}

pub open spec fn employee_decoding(bytes: Seq<u8>) -> Option<EmployeeView> {
    if bytes.len() < EMPLOYEE_HEADER {
        None
    } else {
        let name_end = EMPLOYEE_HEADER + spec_u32_from_le_bytes(bytes.subrange(36, 40));
        if name_end <= bytes.len() && valid_utf8(bytes.subrange(EMPLOYEE_HEADER as int, name_end))
            && valid_utf8(bytes.subrange(name_end, bytes.len() as int)) {
            Some(
                EmployeeView {
                    id: spec_u64_from_le_bytes(bytes.subrange(0, 8)),
                    created_at: spec_u64_from_le_bytes(bytes.subrange(8, 16)),
                    balances: Balances {
                        annual: spec_u32_from_le_bytes(bytes.subrange(16, 20)),
                        sick: spec_u32_from_le_bytes(bytes.subrange(20, 24)),
                        maternity: spec_u32_from_le_bytes(bytes.subrange(24, 28)),
                        paternity: spec_u32_from_le_bytes(bytes.subrange(28, 32)),
                        unpaid: spec_u32_from_le_bytes(bytes.subrange(32, 36)),
                    },
                    name: decode_utf8(bytes.subrange(EMPLOYEE_HEADER as int, name_end)),
                    email: decode_utf8(bytes.subrange(name_end, bytes.len() as int)),
                },
            )
        } else {
            None
        }
    }
}

/// Whether an employee with this name and address fits in a record.
pub fn employee_fits(name: &str, email: &str) -> (fits: bool)
    ensures
        fits == (EMPLOYEE_HEADER + encode_utf8(name@).len() + encode_utf8(email@).len()
            <= MAX_RECORD_SIZE),
{
    let name_len: usize = text_size(name);
    name_len <= MAX_RECORD_SIZE - EMPLOYEE_HEADER && text_size(email) <= MAX_RECORD_SIZE
        - EMPLOYEE_HEADER - name_len
}

/// The length of an employee record depends on the name and the address alone.
pub proof fn lemma_employee_size(v: EmployeeView)
    ensures
        employee_header(v).len() == EMPLOYEE_HEADER,
        employee_encoding(v).len() == EMPLOYEE_HEADER + encode_utf8(v.name).len() + encode_utf8(
            v.email,
        ).len(),
{
    lemma_auto_spec_u64_to_from_le_bytes();
    lemma_auto_spec_u32_to_from_le_bytes();
}

impl Record for Employee {
    open spec fn encoding(v: EmployeeView) -> Seq<u8> {
        employee_encoding(v)
    }

    open spec fn decoding(bytes: Seq<u8>) -> Option<EmployeeView> {
        employee_decoding(bytes)
    }

    open spec fn id_of(v: EmployeeView) -> u64 {
        v.id
    }

    fn id(&self) -> (id: u64) {
        self.id
    }

    proof fn lemma_round_trip(v: EmployeeView) {
        lemma_auto_spec_u64_to_from_le_bytes();
        lemma_auto_spec_u32_to_from_le_bytes();
        lemma_employee_size(v);
        encode_utf8_valid_utf8(v.name);
        encode_utf8_decode_utf8(v.name);
        encode_utf8_valid_utf8(v.email);
        encode_utf8_decode_utf8(v.email);
        let bytes = employee_encoding(v);
        let name_len = encode_utf8(v.name).len();
        assert(bytes.subrange(0, 8) =~= spec_u64_to_le_bytes(v.id));
        assert(bytes.subrange(8, 16) =~= spec_u64_to_le_bytes(v.created_at));
        assert(bytes.subrange(16, 20) =~= spec_u32_to_le_bytes(v.balances.annual));
        assert(bytes.subrange(20, 24) =~= spec_u32_to_le_bytes(v.balances.sick));
        assert(bytes.subrange(24, 28) =~= spec_u32_to_le_bytes(v.balances.maternity));
        assert(bytes.subrange(28, 32) =~= spec_u32_to_le_bytes(v.balances.paternity));
        assert(bytes.subrange(32, 36) =~= spec_u32_to_le_bytes(v.balances.unpaid));
        assert(bytes.subrange(36, 40) =~= spec_u32_to_le_bytes(name_len as u32));
        assert(bytes.subrange(EMPLOYEE_HEADER as int, EMPLOYEE_HEADER + name_len) =~= encode_utf8(
            v.name,
        ));
        assert(bytes.subrange(EMPLOYEE_HEADER + name_len, bytes.len() as int) =~= encode_utf8(
            v.email,
        ));
        assert(employee_decoding(bytes)->Some_0 =~= v);
    }

    proof fn lemma_canonical(bytes: Seq<u8>) {
        lemma_auto_spec_u64_to_from_le_bytes();
        lemma_auto_spec_u32_to_from_le_bytes();
        let v = employee_decoding(bytes)->Some_0;
        let name_end = EMPLOYEE_HEADER + spec_u32_from_le_bytes(bytes.subrange(36, 40));
        let name_bytes = bytes.subrange(EMPLOYEE_HEADER as int, name_end);
        let email_bytes = bytes.subrange(name_end, bytes.len() as int);
        decode_utf8_encode_utf8(name_bytes);
        decode_utf8_encode_utf8(email_bytes);
        assert(encode_utf8(v.name) == name_bytes);
        assert(encode_utf8(v.email) == email_bytes);
        assert(spec_u64_to_le_bytes(v.id) == bytes.subrange(0, 8));
        assert(spec_u64_to_le_bytes(v.created_at) == bytes.subrange(8, 16));
        assert(spec_u32_to_le_bytes(v.balances.annual) == bytes.subrange(16, 20));
        assert(spec_u32_to_le_bytes(v.balances.sick) == bytes.subrange(20, 24));
        assert(spec_u32_to_le_bytes(v.balances.maternity) == bytes.subrange(24, 28));
        assert(spec_u32_to_le_bytes(v.balances.paternity) == bytes.subrange(28, 32));
        assert(spec_u32_to_le_bytes(v.balances.unpaid) == bytes.subrange(32, 36));
        assert(spec_u32_to_le_bytes(name_bytes.len() as u32) == bytes.subrange(36, 40));
        assert(employee_encoding(v) =~= bytes);
    }

    fn encode(&self) -> (r: Option<Vec<u8>>) {
        proof {
            lemma_employee_size(self@);
            lemma_auto_spec_u64_to_from_le_bytes();
            lemma_auto_spec_u32_to_from_le_bytes();
        }
        if !employee_fits(self.name.as_str(), self.email.as_str()) {
            return None;
        }
        let name_len: usize = text_size(self.name.as_str());
        let mut out: Vec<u8> = Vec::new();
        put_u64(&mut out, self.id);
        put_u64(&mut out, self.created_at);
        put_u32(&mut out, self.balances.annual);
        put_u32(&mut out, self.balances.sick);
        put_u32(&mut out, self.balances.maternity);
        put_u32(&mut out, self.balances.paternity);
        put_u32(&mut out, self.balances.unpaid);
        put_u32(&mut out, name_len as u32);
        assert(out@ =~= employee_header(self@));
        put_text(&mut out, self.name.as_str());
        put_text(&mut out, self.email.as_str());
        Some(out)
    }

    fn decode(bytes: &Vec<u8>) -> (r: Option<Employee>) {
        if bytes.len() < EMPLOYEE_HEADER {
            return None;
        }
        let name_len: u32 = read_u32(bytes, 36);
        if name_len as usize > bytes.len() - EMPLOYEE_HEADER {
            return None;
        }
        let name_end: usize = EMPLOYEE_HEADER + name_len as usize;
        let name: String = match read_text(bytes, EMPLOYEE_HEADER, name_end) {
            Some(name) => name,
            None => { return None; },
        };
        let email: String = match read_text(bytes, name_end, bytes.len()) {
            Some(email) => email,
            None => { return None; },
        };
        Some(
            Employee {
                id: read_u64(bytes, 0),
                name,
                email,
                balances: Balances {
                    annual: read_u32(bytes, 16),
                    sick: read_u32(bytes, 20),
                    maternity: read_u32(bytes, 24),
                    paternity: read_u32(bytes, 28),
                    unpaid: read_u32(bytes, 32),
                },
                created_at: read_u64(bytes, 8),
            },
        )
    }
}

} // verus!
