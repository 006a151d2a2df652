//! The records of the durable approval store: how approvals and their
//! counters are keyed and encoded, and which approvals are due for
//! cleanup. The store itself lies outside the library.

use vstd::prelude::*;
use crate::bytes::{push_text, utf8};
use crate::hex::{hex_chars, hex_encode};
use crate::json::{
    decimal, json_bytes, json_string, write_byte_array, write_decimal, write_raw, write_string,
};

verus! {

/// An approval as it is persisted.
#[derive(Debug, Clone)]
pub struct PersistedApproval {
    pub request_id: Vec<u8>,
    pub approver: String,
    pub timestamp: u64,
    pub signature: Vec<u8>,
}

/// The model of a `PersistedApproval`.
pub struct PersistedApprovalView {
    pub request_id: Seq<u8>,
    pub approver: Seq<char>,
    pub timestamp: u64,
    pub signature: Seq<u8>,
}

impl View for PersistedApproval {
    type V = PersistedApprovalView;

    open spec fn view(&self) -> PersistedApprovalView {
        PersistedApprovalView {
            request_id: self.request_id@,
            approver: self.approver@,
            timestamp: self.timestamp,
            signature: self.signature@,
        }
    }
}

/// The prefix of every approval record.
pub const APPROVAL_PREFIX: &'static str = "approval:";

/// The prefix of the approval records of a request.
pub open spec fn approval_prefix_text(request_id: Seq<u8>) -> Seq<char> {
    "approval:"@ + hex_chars(request_id) + ":"@
}

/// The key of the record of an approval.
pub open spec fn approval_key_text(request_id: Seq<u8>, approver: Seq<char>) -> Seq<char> {
    approval_prefix_text(request_id) + approver
}

/// The key of the approval counter of a request.
pub open spec fn count_key_text(request_id: Seq<u8>) -> Seq<char> {
    "count:"@ + hex_chars(request_id)
}

impl PersistedApprovalView {
    /// The value of the record: a JSON object of the fields in their
    /// order.
    pub open spec fn json(self) -> Seq<u8> {
        utf8("{\"request_id\":"@) + json_bytes(self.request_id) + utf8(",\"approver\":"@)
            + json_string(self.approver) + utf8(",\"timestamp\":"@) + decimal(
            self.timestamp as nat,
        ) + utf8(",\"signature\":"@) + json_bytes(self.signature) + utf8("}"@)
    }
}

/// The time before which approvals are cleaned up: `max_age_secs` before
/// `now`, and the epoch where that lies before it.
pub open spec fn cleanup_cutoff(now: u64, max_age_secs: u64) -> u64 {
    if now >= max_age_secs {
        (now - max_age_secs) as u64
    } else {
        0
    }
}

/// The counter that a stored value stands for: eight little-endian bytes
/// are the number they encode, anything else is zero.
pub open spec fn stored_count(stored: Option<Seq<u8>>) -> u64 {
    match stored {
        Some(bytes) => if bytes.len() == 8 {
            vstd::bytes::spec_u64_from_le_bytes(bytes)
        } else {
            0
        },
        None => 0,
    }
}

/// The counter after one more approval: one for a request without a
/// counter, and else one more than the stored counter, as far as it can
/// be counted.
pub open spec fn incremented(stored: Option<Seq<u8>>) -> u64 {
    match stored {
        Some(_) => if stored_count(stored) < u64::MAX {
            (stored_count(stored) + 1) as u64
        } else {
            u64::MAX
        },
        None => 1,
    }
}

/// The prefix of the approval records of a request.
pub fn approval_prefix(request_id: &[u8]) -> (prefix: String)
    ensures
        prefix@ == approval_prefix_text(request_id@),
{
    let mut prefix = "approval:".to_owned();
    push_text(&mut prefix, hex_encode(request_id).as_str());
    push_text(&mut prefix, ":");
    prefix
}

/// The key of the approval counter of a request.
pub fn count_key(request_id: &[u8]) -> (key: String)
    ensures
        key@ == count_key_text(request_id@),
{
    let mut key = "count:".to_owned();
    push_text(&mut key, hex_encode(request_id).as_str());
    key
}

/// The counter that a stored value stands for.
pub fn decode_count(stored: Option<&[u8]>) -> (count: u64)
    ensures
        count == stored_count(crate::crypto::kdf::opt_slice_view(stored)),
{
    match stored {
        Some(bytes) => if bytes.len() == 8 {
            vstd::bytes::u64_from_le_bytes(bytes)
        } else {
            0
        },
        None => 0,
    }
}

/// The value to store for the counter after one more approval.
pub fn next_count(stored: Option<&[u8]>) -> (value: Vec<u8>)
    ensures
        value@ == vstd::bytes::spec_u64_to_le_bytes(
            incremented(crate::crypto::kdf::opt_slice_view(stored)),
        ),
{
    let count = match stored {
        Some(_) => {
            let old = decode_count(stored);
            if old < u64::MAX {
                old + 1
            } else {
                u64::MAX
            }
        },
        None => 1,
    };
    vstd::bytes::u64_to_le_bytes(count)
}

/// The time before which approvals are cleaned up.
pub fn cutoff(now: u64, max_age_secs: u64) -> (time: u64)
    ensures
        time == cleanup_cutoff(now, max_age_secs),
{
    if now >= max_age_secs {
        now - max_age_secs
    } else {
        0
    }
}

impl PersistedApproval {
    /// The key of the record.
    pub fn key(&self) -> (key: String)
        ensures
            key@ == approval_key_text(self.request_id@, self.approver@),
    {
        let mut key = approval_prefix(self.request_id.as_slice());
        push_text(&mut key, self.approver.as_str());
        key
    }

    /// The value of the record.
    pub fn to_json(&self) -> (value: Vec<u8>)
        ensures
            value@ == self@.json(),
    {
        let mut out: Vec<u8> = Vec::new();
        write_raw(&mut out, "{\"request_id\":");
        write_byte_array(&mut out, self.request_id.as_slice());
        write_raw(&mut out, ",\"approver\":");
        write_string(&mut out, self.approver.as_str());
        write_raw(&mut out, ",\"timestamp\":");
        write_decimal(&mut out, self.timestamp);
        write_raw(&mut out, ",\"signature\":");
        write_byte_array(&mut out, self.signature.as_slice());
        write_raw(&mut out, "}");
        assert(out@ =~= self@.json());
        out
    }

    /// Whether the approval is due for cleanup at the time `now`, in
    /// seconds: it is older than `max_age_secs`.
    pub fn is_expired(&self, now: u64, max_age_secs: u64) -> (expired: bool)
        ensures
            expired == (self.timestamp < cleanup_cutoff(now, max_age_secs)),
    {
        self.timestamp < cutoff(now, max_age_secs)
    }
}

} // verus!
